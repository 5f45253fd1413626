use simplex::hl_type::{EnumInfo, EnumVariantInfo, HlType, UIntType};
use simplex::hl_value::HlValue;
use simplex::wtns_error::WtnsWrappingError;
use simplex::wtns_injector::{WtnsInjector, WtnsPathRoute};

fn u8_ty() -> HlType {
    HlType::uint(UIntType::U8)
}

fn u32_ty() -> HlType {
    HlType::uint(UIntType::U32)
}

fn u64_ty() -> HlType {
    HlType::uint(UIntType::U64)
}

// Either<(u64, Either<u64, u64>), [u8; 64]>
fn dummy_value() -> HlValue {
    HlValue::left(
        HlValue::tuple(vec![
            HlValue::u64(0),
            HlValue::right(u64_ty(), HlValue::u64(1)),
        ]),
        HlType::array(u8_ty(), 64),
    )
}

fn variant(name: &str, payload: Vec<HlType>) -> EnumVariantInfo {
    EnumVariantInfo {
        name: name.to_string(),
        payload,
    }
}

fn enum_ty(name: &str, variants: Vec<EnumVariantInfo>) -> HlType {
    HlType::Enum(EnumInfo {
        name: name.to_string(),
        variants,
    })
}

// enum Mode { Off, Single(u32), Pair(u32, u64) }
fn enum_type() -> HlType {
    enum_ty(
        "Mode",
        vec![
            variant("Off", vec![]),
            variant("Single", vec![u32_ty()]),
            variant("Pair", vec![u32_ty(), u64_ty()]),
        ],
    )
}

fn enum_variant(ty: &HlType, name: &str, payload: Vec<HlValue>) -> HlValue {
    HlValue::enum_variant(ty, name, payload).unwrap()
}

// enum Mode { Off, Single(u32) }
fn small_mode_type() -> HlType {
    enum_ty(
        "Mode",
        vec![variant("Off", vec![]), variant("Single", vec![u32_ty()])],
    )
}

// enum Wallet { Left(u32), Right(u64) }
fn wallet_type() -> HlType {
    enum_ty(
        "Wallet",
        vec![variant("Left", vec![u32_ty()]), variant("Right", vec![u64_ty()])],
    )
}

// enum Deep { Empty, Inner(Either<Mode, Wallet>), Bag([Mode; 2]) }
fn nested_enum_type() -> HlType {
    enum_ty(
        "Deep",
        vec![
            variant("Empty", vec![]),
            variant("Inner", vec![HlType::either(small_mode_type(), wallet_type())]),
            variant("Bag", vec![HlType::array(small_mode_type(), 2)]),
        ],
    )
}

fn witness_types(witness: &HlValue) -> HlType {
    witness.ty.duplicate()
}

#[test]
fn inject_value_success() {
    let witness = dummy_value();
    let types = witness_types(&witness);

    let injected_val_tuple =
        WtnsInjector::inject_value(&witness, &types, &["Left", "0"], HlValue::u64(3)).unwrap();

    // Left((3, Right(1)))
    let expected_tuple = HlValue::left(
        HlValue::tuple(vec![
            HlValue::u64(3),
            HlValue::right(u64_ty(), HlValue::u64(1)),
        ]),
        HlType::array(u8_ty(), 64),
    );
    assert_eq!(injected_val_tuple, expected_tuple);

    let injected_val_either = WtnsInjector::inject_value(
        &witness,
        &types,
        &["Left", "1"],
        HlValue::left(HlValue::u64(2), u64_ty()),
    )
    .unwrap();

    // Left((0, Left(2)))
    let expected_either = HlValue::left(
        HlValue::tuple(vec![
            HlValue::u64(0),
            HlValue::left(HlValue::u64(2), u64_ty()),
        ]),
        HlType::array(u8_ty(), 64),
    );
    assert_eq!(injected_val_either, expected_either);
}

#[test]
fn inject_value_idx_out_of_bounds() {
    let witness = dummy_value();
    let types = witness_types(&witness);

    let err = WtnsInjector::inject_value(&witness, &types, &["Left", "5"], HlValue::u64(0)).unwrap_err();

    assert!(matches!(err, WtnsWrappingError::IdxOutOfBounds(_, _)));
}

#[test]
fn inject_value_root_mismatch() {
    let witness = dummy_value();
    let types = witness_types(&witness);

    let err = WtnsInjector::inject_value(&witness, &types, &["Left", "1"], HlValue::unit()).unwrap_err();

    assert!(matches!(err, WtnsWrappingError::RootTypeMismatch(_, _)));
}

#[test]
fn inject_value_either_branch_mismatch() {
    let witness = dummy_value();
    let types = witness_types(&witness);

    let err = WtnsInjector::inject_value(
        &witness,
        &types,
        &["Right"],
        HlValue::right(
            HlType::tuple(vec![u64_ty(), HlType::either(u64_ty(), u64_ty())]),
            HlValue::array(vec![HlValue::u8(0)], u8_ty()),
        ),
    )
    .unwrap_err();

    assert!(matches!(err, WtnsWrappingError::EitherBranchMismatch));
}

#[test]
fn inject_value_enum_single_payload() {
    let ty = enum_type();
    let witness = enum_variant(&ty, "Single", vec![HlValue::u32(0)]);

    let injected = WtnsInjector::inject_value(&witness, &ty, &["Single"], HlValue::u32(9)).unwrap();

    assert_eq!(injected, enum_variant(&ty, "Single", vec![HlValue::u32(9)]));
}

#[test]
fn inject_value_enum_multi_payload() {
    let ty = enum_type();
    let witness = enum_variant(&ty, "Pair", vec![HlValue::u32(1), HlValue::u64(2)]);

    let injected = WtnsInjector::inject_value(&witness, &ty, &["Pair", "1"], HlValue::u64(9)).unwrap();

    assert_eq!(
        injected,
        enum_variant(&ty, "Pair", vec![HlValue::u32(1), HlValue::u64(9)])
    );
}

#[test]
fn inject_value_enum_unknown_variant() {
    let ty = enum_type();
    let witness = enum_variant(&ty, "Single", vec![HlValue::u32(0)]);

    let err = WtnsInjector::inject_value(&witness, &ty, &["Nope"], HlValue::u32(9)).unwrap_err();

    assert!(matches!(err, WtnsWrappingError::UnknownEnumVariant(name, _) if name == "Nope"));
}

#[test]
fn inject_value_enum_variant_mismatch() {
    let ty = enum_type();
    let witness = enum_variant(&ty, "Single", vec![HlValue::u32(0)]);

    let err = WtnsInjector::inject_value(&witness, &ty, &["Pair", "0"], HlValue::u32(9)).unwrap_err();

    assert!(
        matches!(err, WtnsWrappingError::EnumVariantMismatch(selected, held) if selected == "Pair" && held == "Single")
    );
}

#[test]
fn inject_value_enum_unit_variant_unsupported() {
    let ty = enum_type();
    let witness = enum_variant(&ty, "Off", vec![]);

    let err = WtnsInjector::inject_value(&witness, &ty, &["Off"], HlValue::unit()).unwrap_err();

    assert!(matches!(err, WtnsWrappingError::UnsupportedPathType(_)));
}

#[test]
fn inject_value_nested_through_enum_and_either() {
    let deep_ty = nested_enum_type();
    let mode_ty = small_mode_type();

    // Deep::Inner(Left(Mode::Off))
    let witness = enum_variant(
        &deep_ty,
        "Inner",
        vec![HlValue::left(enum_variant(&mode_ty, "Off", vec![]), wallet_type())],
    );

    let injected = WtnsInjector::inject_value(
        &witness,
        &deep_ty,
        &["Inner", "Left"],
        enum_variant(&mode_ty, "Single", vec![HlValue::u32(9)]),
    )
    .unwrap();

    // Deep::Inner(Left(Mode::Single(9)))
    let expected = enum_variant(
        &deep_ty,
        "Inner",
        vec![HlValue::left(
            enum_variant(&mode_ty, "Single", vec![HlValue::u32(9)]),
            wallet_type(),
        )],
    );
    assert_eq!(injected, expected);
}

#[test]
fn inject_value_enum_variant_named_left() {
    let deep_ty = nested_enum_type();
    let wallet_ty = wallet_type();

    // "Right" selects the Either branch; "Left" selects Wallet's variant.
    // Deep::Inner(Right(Wallet::Left(5)))
    let witness = enum_variant(
        &deep_ty,
        "Inner",
        vec![HlValue::right(
            small_mode_type(),
            enum_variant(&wallet_ty, "Left", vec![HlValue::u32(5)]),
        )],
    );

    let injected =
        WtnsInjector::inject_value(&witness, &deep_ty, &["Inner", "Right", "Left"], HlValue::u32(9)).unwrap();

    // Deep::Inner(Right(Wallet::Left(9)))
    let expected = enum_variant(
        &deep_ty,
        "Inner",
        vec![HlValue::right(
            small_mode_type(),
            enum_variant(&wallet_ty, "Left", vec![HlValue::u32(9)]),
        )],
    );
    assert_eq!(injected, expected);
}

#[test]
fn inject_value_enum_payload_of_enum() {
    // Outer::Wrapped(Inner): an enum wrapping another enum with no
    // container in between.
    let inner_ty = enum_ty(
        "Inner",
        vec![variant("Off", vec![]), variant("On", vec![u32_ty()])],
    );
    let outer_ty = enum_ty(
        "Outer",
        vec![variant("Skip", vec![]), variant("Wrapped", vec![inner_ty.duplicate()])],
    );

    // Outer::Wrapped(Inner::On(0))
    let witness = enum_variant(
        &outer_ty,
        "Wrapped",
        vec![enum_variant(&inner_ty, "On", vec![HlValue::u32(0)])],
    );

    let injected =
        WtnsInjector::inject_value(&witness, &outer_ty, &["Wrapped", "On"], HlValue::u32(9)).unwrap();

    // Outer::Wrapped(Inner::On(9))
    let expected = enum_variant(
        &outer_ty,
        "Wrapped",
        vec![enum_variant(&inner_ty, "On", vec![HlValue::u32(9)])],
    );
    assert_eq!(injected, expected);
}

#[test]
fn inject_value_nested_enum_array_payload() {
    let deep_ty = nested_enum_type();
    let mode_ty = small_mode_type();

    // Deep::Bag([Mode::Off, Mode::Off])
    let witness = enum_variant(
        &deep_ty,
        "Bag",
        vec![HlValue::array(
            vec![
                enum_variant(&mode_ty, "Off", vec![]),
                enum_variant(&mode_ty, "Off", vec![]),
            ],
            small_mode_type(),
        )],
    );

    let injected = WtnsInjector::inject_value(
        &witness,
        &deep_ty,
        &["Bag", "1"],
        enum_variant(&mode_ty, "Single", vec![HlValue::u32(9)]),
    )
    .unwrap();

    // Deep::Bag([Mode::Off, Mode::Single(9)])
    let expected = enum_variant(
        &deep_ty,
        "Bag",
        vec![HlValue::array(
            vec![
                enum_variant(&mode_ty, "Off", vec![]),
                enum_variant(&mode_ty, "Single", vec![HlValue::u32(9)]),
            ],
            small_mode_type(),
        )],
    );
    assert_eq!(injected, expected);
}

#[test]
fn parse_path_reads_indices_and_names() {
    let routes = WtnsInjector::parse_path(&["Left", "0", "+7", "x1"]);
    assert_eq!(
        routes,
        vec![
            WtnsPathRoute::Name("Left".to_string()),
            WtnsPathRoute::Index(0),
            WtnsPathRoute::Index(7),
            WtnsPathRoute::Name("x1".to_string()),
        ]
    );
}

#[test]
fn inject_then_lookup_gives_the_injected_value() {
    let witness = dummy_value();
    let types = witness_types(&witness);
    let once = WtnsInjector::inject_value(&witness, &types, &["Left", "0"], HlValue::u64(5)).unwrap();
    let twice = WtnsInjector::inject_value(&once, &types, &["Left", "0"], HlValue::u64(7)).unwrap();
    let direct = WtnsInjector::inject_value(&witness, &types, &["Left", "0"], HlValue::u64(7)).unwrap();
    assert_eq!(twice, direct);
}
