//! Identities of downloads as text: in the name of a journal file and in
//! the names of events.
//!
//! An identity is 128 bits, written in hexadecimal by the `uuid` crate.

use vstd::prelude::*;
use crate::text::append_str;
use crate::text::string_of;

verus! {

/// The hexadecimal digit `d` as a lower-case character.
pub open spec fn hex_char(d: int) -> char {
    if d < 10 {
        ('0' as int + d) as char
    } else {
        ('a' as int + d - 10) as char
    }
}

/// The `width` lowest hexadecimal digits of `v`, most significant first.
pub open spec fn hex_text(v: nat, width: nat) -> Seq<char>
    decreases width,
{
    if width == 0 {
        Seq::empty()
    } else {
        hex_text(v / 16, (width - 1) as nat).push(hex_char((v % 16) as int))
    }
}

/// An identity in its simple form: 32 hexadecimal digits.
pub open spec fn simple_form(id: u128) -> Seq<char> {
    hex_text(id as nat, 32)
}

/// An identity in its hyphenated form: the 32 digits in groups of 8, 4,
/// 4, 4 and 12.
pub open spec fn hyphenated_form(id: u128) -> Seq<char> {
    let s = simple_form(id);
    s.subrange(0, 8) + "-"@ + s.subrange(8, 12) + "-"@ + s.subrange(12, 16) + "-"@ + s.subrange(
        16,
        20,
    ) + "-"@ + s.subrange(20, 32)
}

/// `Uuid::simple` of the `uuid` crate, as text.
///
/// Claimed of it: the text is the 32 lower-case hexadecimal digits of the
/// identity, most significant first.
#[verifier::external_body]
pub(crate) fn simple_text(id: u128) -> (text: String)
    ensures
        text@ == simple_form(id),
{
    uuid::Uuid::from_u128(id).simple().to_string()
}

/// `Uuid::hyphenated` of the `uuid` crate, as text.
///
/// Claimed of it: the text is the 32 lower-case hexadecimal digits of the
/// identity, most significant first, with a hyphen behind the 8th, 12th,
/// 16th and 20th digit.
#[verifier::external_body]
pub(crate) fn hyphenated_text(id: u128) -> (text: String)
    ensures
        text@ == hyphenated_form(id),
{
    uuid::Uuid::from_u128(id).hyphenated().to_string()
}

/// The name of the journal file of a download: its identity in simple form
/// and the extension `.tur`.
pub fn meta_file_name(id: u128) -> (name: String)
    ensures
        name@ == simple_form(id) + ".tur"@,
{
    let mut out: Vec<char> = Vec::new();
    append_str(&mut out, simple_text(id).as_str());
    append_str(&mut out, ".tur");
    proof {
        assert(out@.subrange(0, out@.len() as int) =~= out@);
        assert(Seq::<char>::empty() + simple_form(id) =~= simple_form(id));
    }
    string_of(&out, 0, out.len())
}

/// The name of the event that says that a download was paused.
pub fn paused_event(id: u128) -> (name: String)
    ensures
        name@ == "download_paused_"@ + hyphenated_form(id),
{
    let mut out: Vec<char> = Vec::new();
    append_str(&mut out, "download_paused_");
    append_str(&mut out, hyphenated_text(id).as_str());
    proof {
        assert(out@.subrange(0, out@.len() as int) =~= out@);
    }
    string_of(&out, 0, out.len())
}

/// The name of the event that says that a download was cancelled.
pub fn cancelled_event(id: u128) -> (name: String)
    ensures
        name@ == "download_cancelled_"@ + hyphenated_form(id),
{
    let mut out: Vec<char> = Vec::new();
    append_str(&mut out, "download_cancelled_");
    append_str(&mut out, hyphenated_text(id).as_str());
    proof {
        assert(out@.subrange(0, out@.len() as int) =~= out@);
    }
    string_of(&out, 0, out.len())
}

} // verus!
