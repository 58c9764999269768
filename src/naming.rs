//! Names that uploads and downloads need: object keys for uploaded files, and
//! the file name and media type reported for a key.
use vstd::prelude::*;

verus! {

/// The final component of a path, as `std::path::Path::file_name` reads it
/// (empty where there is none).
pub uninterp spec fn file_name_of(path: Seq<char>) -> Seq<char>;

/// The media type that `mime_guess` guesses for a path from its extension.
pub uninterp spec fn mime_of(path: Seq<char>) -> Seq<char>;

/// Relies on `std::path::Path::file_name`, read as text: the final component
/// of `path`, or nothing where the path ends in `..` or has no component.
#[verifier::external_body]
fn final_component(path: &str) -> (r: String)
    ensures
        r@ == file_name_of(path@),
{
    std::path::Path::new(path).file_name().unwrap_or_default().to_string_lossy().into_owned()
}

/// Relies on `mime_guess::from_path(..).first_or_octet_stream()`: the first
/// media type known for the path's extension, `application/octet-stream` where
/// the path has no extension (no `.`) or the extension is unknown.
#[verifier::external_body]
fn guess_mime(path: &str) -> (r: String)
    ensures
        r@ == mime_of(path@),
        !path@.contains('.') ==> r@ == "application/octet-stream"@,
{
    mime_guess::from_path(path).first_or_octet_stream().as_ref().to_string()
}

/// ASCII letters, digits, `-`, `_` and `.`: characters that no platform's
/// rule removes from a file name.
pub open spec fn is_plain_name_char(c: char) -> bool {
    ('a' <= c && c <= 'z') || ('A' <= c && c <= 'Z') || ('0' <= c && c <= '9') || c == '-' || c == '_'
        || c == '.'
}

pub open spec fn same_letter(c: char, lower: char, upper: char) -> bool {
    c == lower || c == upper
}

/// `w` is, in any case, one of the names Windows reserves for devices:
/// `con`, `prn`, `aux`, `nul`, or `com` or `lpt` followed by a digit.
pub open spec fn is_device_word(w: Seq<char>) -> bool {
    ||| w.len() == 3 && same_letter(w[0], 'c', 'C') && same_letter(w[1], 'o', 'O') && same_letter(w[2], 'n', 'N')
    ||| w.len() == 3 && same_letter(w[0], 'p', 'P') && same_letter(w[1], 'r', 'R') && same_letter(w[2], 'n', 'N')
    ||| w.len() == 3 && same_letter(w[0], 'a', 'A') && same_letter(w[1], 'u', 'U') && same_letter(w[2], 'x', 'X')
    ||| w.len() == 3 && same_letter(w[0], 'n', 'N') && same_letter(w[1], 'u', 'U') && same_letter(w[2], 'l', 'L')
    ||| w.len() == 4 && same_letter(w[0], 'c', 'C') && same_letter(w[1], 'o', 'O') && same_letter(w[2], 'm', 'M')
        && '0' <= w[3] && w[3] <= '9'
    ||| w.len() == 4 && same_letter(w[0], 'l', 'L') && same_letter(w[1], 'p', 'P') && same_letter(w[2], 't', 'T')
        && '0' <= w[3] && w[3] <= '9'
}

/// A file name that sanitizing leaves as it is on every platform: 1 to 255
/// plain characters, not ending in `.`, whose part before the first `.` is not
/// a reserved device name.
pub open spec fn is_plain_file_name(s: Seq<char>) -> bool {
    &&& 0 < s.len() <= 255
    &&& forall|i: int| 0 <= i < s.len() ==> is_plain_name_char(#[trigger] s[i])
    &&& s.last() != '.'
    &&& forall|k: int|
        0 <= k <= s.len() && (k == s.len() || s[k] == '.') && (forall|i: int| 0 <= i < k ==> #[trigger] s[i] != '.')
            ==> !is_device_word(#[trigger] s.subrange(0, k))
}

/// Relies on `sanitize_filename::sanitize`: it removes, among others, every
/// `/` and `\\` from the name (what else it removes depends on the platform),
/// and leaves a plain file name, in which none of its patterns match, as it is.
#[verifier::external_body]
fn sanitize(name: &str) -> (r: String)
    ensures
        !r@.contains('/'),
        !r@.contains('\\'),
        is_plain_file_name(name@) ==> r@ == name@,
{
    sanitize_filename::sanitize(name)
}

/// Relies on `uuid::Uuid::new_v4` written with `to_string`: 32 random
/// lowercase hexadecimal digits in five groups joined by `-`.
#[verifier::external_body]
fn random_name() -> (r: String)
    ensures
        r@.len() == 36,
        forall|i: int| 0 <= i < 36 ==> is_hex_or_dash(#[trigger] r@[i]),
{
    uuid::Uuid::new_v4().to_string()
}

pub open spec fn is_hex_or_dash(c: char) -> bool {
    ('0' <= c && c <= '9') || ('a' <= c && c <= 'f') || c == '-'
}

/// `p` without the `/` characters at its end.
pub open spec fn trim_trailing_slashes(p: Seq<char>) -> Seq<char>
    decreases p.len(),
{
    if p.len() > 0 && p.last() == '/' {
        trim_trailing_slashes(p.drop_last())
    } else {
        p
    }
}

/// The key of an uploaded file: its name, under the prefix when there is one.
pub open spec fn upload_key_of(prefix: Seq<char>, file_name: Seq<char>) -> Seq<char> {
    if prefix.len() == 0 {
        file_name
    } else {
        trim_trailing_slashes(prefix) + seq!['/'] + file_name
    }
}

/// The name that an uploaded file is stored under: its own name with the
/// characters that have no place in a file name removed, or a random name
/// where it came without one. Neither holds a `/`.
pub fn upload_file_name(given: Option<&str>) -> (r: String)
    ensures
        !r@.contains('/'),
        given is None ==> r@.len() == 36,
        given is Some && is_plain_file_name(given->0@) ==> r@ == given->0@,
{
    match given {
        Some(f) => sanitize(f),
        None => {
            let r = random_name();
            assert(!r@.contains('/')) by {
                if r@.contains('/') {
                    let i = choose|i: int| 0 <= i < r@.len() && r@[i] == '/';
                    assert(is_hex_or_dash(r@[i]));
                }
            }
            r
        },
    }
}

/// The key of an uploaded file named `file_name` under `prefix`: the name
/// alone for an empty prefix, else the prefix without its trailing `/`s, a
/// `/`, and the name.
pub fn upload_key(prefix: &str, file_name: &str) -> (r: String)
    ensures
        r@ == upload_key_of(prefix@, file_name@),
{
    let n = prefix.unicode_len();
    if n == 0 {
        return String::from_str(file_name);
    }
    let mut end: usize = n;
    assert(prefix@.subrange(0, n as int) =~= prefix@);
    while end > 0 && prefix.get_char(end - 1) == '/'
        invariant
            end <= n,
            n == prefix@.len(),
            trim_trailing_slashes(prefix@.subrange(0, end as int)) == trim_trailing_slashes(prefix@),
        decreases end,
    {
        assert(prefix@.subrange(0, end as int).drop_last() =~= prefix@.subrange(0, end - 1));
        end = end - 1;
    }
    assert(trim_trailing_slashes(prefix@.subrange(0, end as int)) == prefix@.subrange(0, end as int));
    let mut r = String::from_str(prefix.substring_char(0, end));
    proof {
        reveal_strlit("/");
    }
    r.append("/");
    r.append(file_name);
    assert(r@ =~= upload_key_of(prefix@, file_name@));
    r
}

/// The file name reported for the object under `key`: the key's final
/// component.
pub fn download_file_name(key: &str) -> (r: String)
    ensures
        r@ == file_name_of(key@),
{
    final_component(key)
}

/// The `Content-Disposition` value that offers the object under `key` as a
/// download named after the key's final component.
pub fn content_disposition(key: &str) -> (r: String)
    ensures
        r@ == "attachment; filename=\""@ + file_name_of(key@) + "\""@,
{
    let name = final_component(key);
    let mut r = String::from_str("attachment; filename=\"");
    r.append(name.as_str());
    r.append("\"");
    r
}

/// The media type reported for the object under `key`, guessed from the
/// extension of the key's final component.
pub fn view_content_type(key: &str) -> (r: String)
    ensures
        r@ == mime_of(file_name_of(key@)),
{
    let name = final_component(key);
    guess_mime(name.as_str())
}

} // verus!
