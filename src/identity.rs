//! What registering a participant computes: the short user code, and where
//! an uploaded avatar is stored.
use vstd::prelude::*;
use vstd::string::StringExecFns;
use crate::answer::all_ascii;

verus! {

/// What `str::to_uppercase` makes of a text.
pub uninterp spec fn upper_of(s: Seq<char>) -> Seq<char>;

/// What `std::path::Path::extension` gives for a file name, as text.
pub uninterp spec fn extension_of(name: Seq<char>) -> Option<Seq<char>>;

/// An ASCII small letter made capital; any other character unchanged.
pub open spec fn ascii_upper(c: char) -> char {
    if 'a' <= c <= 'z' {
        ((c as u32) - 32) as char
    } else {
        c
    }
}

/// An uppercase hexadecimal digit.
pub open spec fn is_upper_hex(c: char) -> bool {
    ('0' <= c <= '9') || ('A' <= c <= 'F')
}

/// A lowercase hexadecimal digit.
pub open spec fn is_lower_hex(c: char) -> bool {
    ('0' <= c <= '9') || ('a' <= c <= 'f')
}

/// Relies on `uuid::Uuid::new_v4` and its `simple()` text: 32 lowercase
/// hexadecimal digits, random.
#[verifier::external_body]
fn random_simple_uuid() -> (r: String)
    ensures
        r@.len() == 32,
        forall|i: int| 0 <= i < r@.len() ==> is_lower_hex(#[trigger] r@[i]),
{
    uuid::Uuid::new_v4().simple().to_string()
}

/// Relies on `str::to_uppercase`: the uppercase form, a function of the text
/// alone; on ASCII text, each small letter made capital.
#[verifier::external_body]
fn uppercase(s: &str) -> (r: String)
    ensures
        r@ == upper_of(s@),
        all_ascii(s@) ==> r@ == s@.map_values(|c: char| ascii_upper(c)),
{
    s.to_uppercase()
}

/// Relies on `std::path::Path::extension` and `OsStr::to_str`: the text after
/// the last dot of the file name, if it has one.
#[verifier::external_body]
fn path_extension(name: &str) -> (r: Option<String>)
    ensures
        r matches Some(e) ==> extension_of(name@) == Some(e@),
        r is None ==> extension_of(name@) is None,
{
    std::path::Path::new(name).extension().and_then(|e| e.to_str()).map(|e| e.to_string())
}

/// The first eight characters of a text (all of it when shorter).
pub open spec fn first_eight(s: Seq<char>) -> Seq<char> {
    if s.len() <= 8 {
        s
    } else {
        s.subrange(0, 8)
    }
}

/// The user code made from a random hexadecimal text: its first eight
/// digits in uppercase.
pub fn user_code_from(hex: &str) -> (r: String)
    ensures
        r@ == upper_of(first_eight(hex@)),
        all_ascii(first_eight(hex@)) ==> r@ == first_eight(hex@).map_values(|c: char| ascii_upper(c)),
{
    let n = hex.unicode_len();
    if n <= 8 {
        uppercase(hex)
    } else {
        uppercase(hex.substring_char(0, 8))
    }
}

/// A fresh user code: the first eight digits of a random UUID, in
/// uppercase, so eight characters of `0-9A-F`.
pub fn new_user_code() -> (r: String)
    ensures
        r@.len() == 8,
        forall|i: int| 0 <= i < 8 ==> is_upper_hex(#[trigger] r@[i]),
        exists|h: Seq<char>|
            h.len() == 32 && (forall|i: int| 0 <= i < 32 ==> is_lower_hex(#[trigger] h[i]))
                && r@ == h.subrange(0, 8).map_values(|c: char| ascii_upper(c)),
{
    let h = random_simple_uuid();
    let r = user_code_from(h.as_str());
    proof {
        let p = h@.subrange(0, 8);
        assert(first_eight(h@) == p);
        assert forall|i: int| 0 <= i < p.len() implies (#[trigger] p[i] as u32) < 128 by {
            assert(is_lower_hex(h@[i]));
        }
        assert forall|i: int| 0 <= i < 8 implies is_upper_hex(#[trigger] r@[i]) by {
            assert(is_lower_hex(h@[i]));
        }
    }
    r
}

/// The extension an avatar is stored under: the uploaded file's, or `png`.
pub open spec fn avatar_extension(file_name: Seq<char>) -> Seq<char> {
    match extension_of(file_name) {
        Some(e) => e,
        None => "png"@,
    }
}

/// The path under which an avatar is served: `/avatar/<day>/<stem>.<ext>`.
pub open spec fn avatar_path_text(day: Seq<char>, stem: Seq<char>, file_name: Seq<char>) -> Seq<char> {
    "/avatar/"@ + day + "/"@ + stem + "."@ + avatar_extension(file_name)
}

/// The stored name of an avatar: `<stem>.<ext>`.
pub fn avatar_file_name(stem: &str, file_name: &str) -> (r: String)
    ensures
        r@ == stem@ + "."@ + avatar_extension(file_name@),
{
    let mut out = String::from_str(stem);
    out.append(".");
    match path_extension(file_name) {
        Some(e) => out.append(e.as_str()),
        None => out.append("png"),
    }
    out
}

/// The path under which an avatar stored on `day` as `stem` is served.
pub fn avatar_path(day: &str, stem: &str, file_name: &str) -> (r: String)
    ensures
        r@ == avatar_path_text(day@, stem@, file_name@),
{
    let mut out = String::from_str("/avatar/");
    out.append(day);
    out.append("/");
    let f = avatar_file_name(stem, file_name);
    out.append(f.as_str());
    assert(out@ =~= avatar_path_text(day@, stem@, file_name@));
    out
}

} // verus!
