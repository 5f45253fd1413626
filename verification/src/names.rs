//! Names derived from a contract's name: the Rust struct name, the constant
//! that holds its source, the module of its bindings, and the Rust names of
//! its fields.
use vstd::prelude::*;

verus! {

/// What `str::to_uppercase` gives for a text.
pub uninterp spec fn uppercase_text(s: Seq<char>) -> Seq<char>;

/// What `str::to_lowercase` gives for a text.
pub uninterp spec fn lowercase_text(s: Seq<char>) -> Seq<char>;

/// What `char::to_uppercase` yields for a character, collected into a text.
pub uninterp spec fn char_uppercase_text(c: char) -> Seq<char>;

/// Whether every character of `s` is ASCII.
pub open spec fn is_ascii_text(s: Seq<char>) -> bool {
    forall|i: int| 0 <= i < s.len() ==> (#[trigger] s[i] as u32) < 128
}

/// The ASCII upper case of a character; other characters are kept.
pub open spec fn ascii_upper(c: char) -> char {
    if 'a' <= c && c <= 'z' {
        ((c as u32) - 32) as char
    } else {
        c
    }
}

/// The ASCII lower case of a character; other characters are kept.
pub open spec fn ascii_lower(c: char) -> char {
    if 'A' <= c && c <= 'Z' {
        ((c as u32) + 32) as char
    } else {
        c
    }
}

/// Calls `str::to_uppercase`. Its result is named by `uppercase_text`; on
/// ASCII text, as its documentation shows, each letter `a`..`z` becomes
/// `A`..`Z` and every other character stays.
#[verifier::external_body]
fn str_to_uppercase(s: &str) -> (r: String)
    ensures
        r@ == uppercase_text(s@),
        is_ascii_text(s@) ==> r@ == s@.map_values(|c: char| ascii_upper(c)),
{
    s.to_uppercase()
}

/// Calls `str::to_lowercase`. Its result is named by `lowercase_text`; on
/// ASCII text each letter `A`..`Z` becomes `a`..`z` and every other
/// character stays.
#[verifier::external_body]
fn str_to_lowercase(s: &str) -> (r: String)
    ensures
        r@ == lowercase_text(s@),
        is_ascii_text(s@) ==> r@ == s@.map_values(|c: char| ascii_lower(c)),
{
    s.to_lowercase()
}

/// Calls `char::to_uppercase` and collects what it yields. The result is
/// named by `char_uppercase_text`; for an ASCII character it is the one
/// character `ascii_upper(c)`.
#[verifier::external_body]
fn char_to_uppercase(c: char) -> (r: String)
    ensures
        r@ == char_uppercase_text(c),
        (c as u32) < 128 ==> r@ == seq![ascii_upper(c)],
{
    c.to_uppercase().collect::<String>()
}

/// `s` in upper camel case, where `at_start` tells whether `s` starts a
/// word: underscores are dropped, and the first character of each word
/// (a maximal run without underscores) is upper-cased.
pub open spec fn camel_case(s: Seq<char>, at_start: bool) -> Seq<char>
    decreases s.len(),
{
    if s.len() == 0 {
        Seq::empty()
    } else if s[0] == '_' {
        camel_case(s.drop_first(), true)
    } else if at_start {
        char_uppercase_text(s[0]) + camel_case(s.drop_first(), false)
    } else {
        seq![s[0]] + camel_case(s.drop_first(), false)
    }
}

/// The Rust struct name of a contract: its `_`-separated words, each with
/// its first character upper-cased, joined together.
pub open spec fn struct_name_text(contract_name: Seq<char>) -> Seq<char> {
    camel_case(contract_name, true)
}

/// `camel_case` of an ASCII text, where upper-casing a character is
/// `ascii_upper`.
pub open spec fn ascii_camel_case(s: Seq<char>, at_start: bool) -> Seq<char>
    decreases s.len(),
{
    if s.len() == 0 {
        Seq::empty()
    } else if s[0] == '_' {
        ascii_camel_case(s.drop_first(), true)
    } else if at_start {
        seq![ascii_upper(s[0])] + ascii_camel_case(s.drop_first(), false)
    } else {
        seq![s[0]] + ascii_camel_case(s.drop_first(), false)
    }
}

/// The number of underscores in a text.
pub open spec fn underscore_count(s: Seq<char>) -> nat
    decreases s.len(),
{
    if s.len() == 0 {
        0
    } else {
        (if s[0] == '_' { 1nat } else { 0nat }) + underscore_count(s.drop_first())
    }
}

/// The name of the constant that holds a contract's source.
pub open spec fn source_const_text(contract_name: Seq<char>) -> Seq<char> {
    uppercase_text(contract_name) + "_CONTRACT_SOURCE"@
}

/// The name of the module that holds a contract's bindings.
pub open spec fn module_text(contract_name: Seq<char>) -> Seq<char> {
    "derived_"@ + contract_name
}

/// The Rust field name of a witness or parameter.
pub open spec fn field_name_text(witness_name: Seq<char>) -> Seq<char> {
    lowercase_text(witness_name)
}

/// The Rust struct name of a contract: `my_contract` becomes `MyContract`.
pub fn convert_contract_name_to_struct_name(contract_name: &str) -> (r: String)
    ensures
        r@ == struct_name_text(contract_name@),
        is_ascii_text(contract_name@) ==> r@ == ascii_camel_case(contract_name@, true),
{
    let n = contract_name.unicode_len();
    let mut out = String::new();
    let mut at_start = true;
    let mut i: usize = 0;
    assert(contract_name@.subrange(0, n as int) =~= contract_name@);
    assert(out@ + camel_case(contract_name@, true) =~= camel_case(contract_name@, true));
    assert(out@ + ascii_camel_case(contract_name@, true) =~= ascii_camel_case(contract_name@, true));
    while i < n
        invariant
            i <= n,
            n == contract_name@.len(),
            out@ + camel_case(contract_name@.subrange(i as int, n as int), at_start)
                == struct_name_text(contract_name@),
            is_ascii_text(contract_name@) ==> out@ + ascii_camel_case(
                contract_name@.subrange(i as int, n as int),
                at_start,
            ) == ascii_camel_case(contract_name@, true),
        decreases n - i,
    {
        let c = contract_name.get_char(i);
        let ghost rest = contract_name@.subrange(i as int, n as int);
        assert(rest[0] == c);
        assert(rest.drop_first() =~= contract_name@.subrange(i + 1, n as int));
        if c == '_' {
            at_start = true;
        } else if at_start {
            let u = char_to_uppercase(c);
            let ghost prev = out@;
            out.append(u.as_str());
            assert(out@ + camel_case(contract_name@.subrange(i + 1, n as int), false) =~= prev
                + camel_case(rest, true));
            proof {
                if is_ascii_text(contract_name@) {
                    assert((contract_name@[i as int] as u32) < 128);
                    assert(out@ + ascii_camel_case(contract_name@.subrange(i + 1, n as int), false)
                        =~= prev + ascii_camel_case(rest, true));
                }
            }
            at_start = false;
        } else {
            let ghost prev = out@;
            let one = contract_name.substring_char(i, i + 1);
            assert(one@ =~= seq![c]);
            out.append(one);
            assert(out@ + camel_case(contract_name@.subrange(i + 1, n as int), false) =~= prev
                + camel_case(rest, false));
            assert(out@ + ascii_camel_case(contract_name@.subrange(i + 1, n as int), false)
                =~= prev + ascii_camel_case(rest, false));
        }
        i += 1;
    }
    assert(contract_name@.subrange(n as int, n as int) =~= Seq::<char>::empty());
    assert(out@ =~= struct_name_text(contract_name@));
    assert(is_ascii_text(contract_name@) ==> out@ =~= ascii_camel_case(contract_name@, true));
    out
}

/// The name of the constant that holds a contract's source:
/// `my_contract` gives `MY_CONTRACT_CONTRACT_SOURCE`.
pub fn convert_contract_name_to_contract_source_const(contract_name: &str) -> (r: String)
    ensures
        r@ == source_const_text(contract_name@),
        is_ascii_text(contract_name@) ==> r@ == contract_name@.map_values(|c: char| ascii_upper(c))
            + "_CONTRACT_SOURCE"@,
{
    let mut s = str_to_uppercase(contract_name);
    s.append("_CONTRACT_SOURCE");
    s
}

/// The name of the module that holds a contract's bindings:
/// `my_contract` gives `derived_my_contract`.
pub fn convert_contract_name_to_contract_module(contract_name: &str) -> (r: String)
    ensures
        r@ == module_text(contract_name@),
{
    let mut s = String::from_str("derived_");
    s.append(contract_name);
    s
}

/// The Rust field name of a witness or parameter: its lower case.
pub fn convert_witness_name_to_field_name(witness_name: &str) -> (r: String)
    ensures
        r@ == field_name_text(witness_name@),
        is_ascii_text(witness_name@) ==> r@ == witness_name@.map_values(|c: char| ascii_lower(c)),
{
    str_to_lowercase(witness_name)
}

proof fn lemma_ascii_upper(c: char)
    ensures
        ascii_upper(ascii_upper(c)) == ascii_upper(c),
        (ascii_upper(c) == '_') == (c == '_'),
        (c as u32) < 128 ==> (ascii_upper(c) as u32) < 128,
{
    if 'a' <= c && c <= 'z' {
        assert(((c as u32) - 32) as char as u32 == (c as u32) - 32);
    }
}

/// The camel case of a text holds no underscore, and ASCII stays ASCII.
proof fn lemma_ascii_camel_case_shape(s: Seq<char>, at_start: bool)
    ensures
        forall|i: int|
            0 <= i < ascii_camel_case(s, at_start).len() ==> #[trigger] ascii_camel_case(
                s,
                at_start,
            )[i] != '_',
        is_ascii_text(s) ==> is_ascii_text(ascii_camel_case(s, at_start)),
        ascii_camel_case(s, at_start).len() + underscore_count(s) == s.len(),
    decreases s.len(),
{
    if s.len() > 0 {
        lemma_ascii_camel_case_shape(s.drop_first(), true);
        lemma_ascii_camel_case_shape(s.drop_first(), false);
        lemma_ascii_upper(s[0]);
        if is_ascii_text(s) {
            assert((s[0] as u32) < 128);
            assert forall|i: int| 0 <= i < s.drop_first().len() implies (#[trigger] s.drop_first()[i]
                as u32) < 128 by {
                assert(s.drop_first()[i] == s[i + 1]);
            }
        }
        let r = ascii_camel_case(s, at_start);
        if s[0] != '_' {
            let t = ascii_camel_case(s.drop_first(), false);
            assert forall|i: int| 0 <= i < r.len() implies #[trigger] r[i] != '_' by {
                if i > 0 {
                    assert(r[i] == t[i - 1]);
                }
            }
            if is_ascii_text(s) {
                assert forall|i: int| 0 <= i < r.len() implies (#[trigger] r[i] as u32) < 128 by {
                    if i > 0 {
                        assert(r[i] == t[i - 1]);
                    }
                }
            }
        }
    }
}

/// A text without underscores is its own camel case when it does not start
/// a word.
proof fn lemma_ascii_camel_case_plain(t: Seq<char>)
    requires
        forall|i: int| 0 <= i < t.len() ==> #[trigger] t[i] != '_',
    ensures
        ascii_camel_case(t, false) == t,
    decreases t.len(),
{
    if t.len() > 0 {
        assert(t[0] != '_');
        assert forall|i: int| 0 <= i < t.drop_first().len() implies #[trigger] t.drop_first()[i]
            != '_' by {
            assert(t.drop_first()[i] == t[i + 1]);
        }
        lemma_ascii_camel_case_plain(t.drop_first());
        assert(seq![t[0]] + t.drop_first() =~= t);
    }
}

/// The struct name of an ASCII contract name is ASCII, is its own struct
/// name, and is as long as the contract name without its underscores.
pub proof fn lemma_struct_name_idempotent(contract_name: Seq<char>)
    requires
        is_ascii_text(contract_name),
    ensures
        is_ascii_text(ascii_camel_case(contract_name, true)),
        ascii_camel_case(ascii_camel_case(contract_name, true), true) == ascii_camel_case(
            contract_name,
            true,
        ),
        ascii_camel_case(contract_name, true).len() == contract_name.len() - underscore_count(
            contract_name,
        ),
    decreases contract_name.len(),
{
    let s = contract_name;
    lemma_ascii_camel_case_shape(s, true);
    if s.len() > 0 {
        if s[0] == '_' {
            assert forall|i: int| 0 <= i < s.drop_first().len() implies (#[trigger] s.drop_first()[i]
                as u32) < 128 by {
                assert(s.drop_first()[i] == s[i + 1]);
            }
            lemma_struct_name_idempotent(s.drop_first());
        } else {
            let t = ascii_camel_case(s.drop_first(), false);
            let r = ascii_camel_case(s, true);
            lemma_ascii_camel_case_shape(s.drop_first(), false);
            lemma_ascii_camel_case_plain(t);
            lemma_ascii_upper(s[0]);
            assert(r == seq![ascii_upper(s[0])] + t);
            assert(r[0] == ascii_upper(s[0]));
            assert(r.drop_first() =~= t);
            assert(ascii_camel_case(r, true) == seq![ascii_upper(r[0])] + ascii_camel_case(
                r.drop_first(),
                false,
            ));
        }
    }
}

} // verus!
