//! Small text utilities of the engine: short type and variant names, the
//! report of a failed game, and the check of an asset's path.
use vstd::prelude::*;
use vstd::string::StringExecFns;

use crate::num::{i64_to_string, int_decimal};
use crate::text::{str_chars, string_from_chars};

verus! {

broadcast use vstd::string::group_string_axioms;

/// The position of the last `c` in `s`, if there is one.
pub open spec fn rfind(s: Seq<char>, c: char) -> Option<int>
    decreases s.len(),
{
    if s.len() == 0 {
        None
    } else if s.last() == c {
        Some(s.len() - 1)
    } else {
        rfind(s.drop_last(), c)
    }
}

/// `rfind` gives a position that holds `c`, after which no `c` follows.
proof fn lemma_rfind(s: Seq<char>, c: char, i: int)
    requires
        -1 <= i < s.len(),
        forall|j: int| i < j < s.len() ==> s[j] != c,
        i >= 0 ==> s[i] == c,
    ensures
        rfind(s, c) == (if i >= 0 { Some(i) } else { None::<int> }),
    decreases s.len(),
{
    if s.len() > 0 && i < s.len() - 1 {
        assert(s.last() == s[s.len() - 1]);
        lemma_rfind(s.drop_last(), c, i);
    }
}

/// The position of the last `c` among the characters, or `None`.
fn rfind_char(v: &Vec<char>, c: char) -> (r: Option<usize>)
    ensures
        r matches Some(i) ==> i < v@.len(),
        match r {
            Some(i) => rfind(v@, c) == Some(i as int),
            None => rfind(v@, c) is None,
        },
{
    let mut i: usize = v.len();
    while i > 0
        invariant
            i <= v.len(),
            forall|j: int| i <= j < v.len() ==> v@[j] != c,
        decreases i,
    {
        if v[i - 1] == c {
            proof {
                lemma_rfind(v@, c, i - 1);
            }
            return Some(i - 1);
        }
        i = i - 1;
    }
    proof {
        lemma_rfind(v@, c, -1);
    }
    None
}

/// The last path segment of a full type name such as `pill_engine::ecs::Texture`:
/// the text after its last `:`. The name must hold a `:`.
pub fn get_type_name(full_type_name: &str) -> (r: String)
    requires
        rfind(full_type_name@, ':') is Some,
    ensures
        r@ == full_type_name@.subrange(rfind(full_type_name@, ':')->0 + 1, full_type_name@.len() as int),
{
    let v = str_chars(full_type_name);
    let i = rfind_char(&v, ':').unwrap();
    assert(i < v.len());
    let tail = crate::text::slice_chars(&v, i + 1, v.len());
    string_from_chars(tail.as_slice())
}

/// The name of an enum variant in its `Debug` text: the text before the last
/// `(`, or all of it where there is none.
pub fn get_enum_variant_type_name(debug_text: &str) -> (r: String)
    ensures
        r@ == match rfind(debug_text@, '(') {
            Some(i) => debug_text@.subrange(0, i),
            None => debug_text@,
        },
{
    let v = str_chars(debug_text);
    match rfind_char(&v, '(') {
        Some(i) => {
            let head = crate::text::slice_chars(&v, 0, i);
            string_from_chars(head.as_slice())
        },
        None => {
            assert(v@.subrange(0, v@.len() as int) == v@);
            string_from_chars(v.as_slice())
        },
    }
}

/// The report line of the `i`-th error of a chain: the first is the game
/// error, each later one is numbered from 0.
pub open spec fn error_line(i: int, message: Seq<char>) -> Seq<char> {
    if i == 0 {
        "Game error: "@ + message + " \n"@
    } else {
        "  "@ + int_decimal(i - 1) + ": "@ + message + " \n"@
    }
}

/// The report of an error chain: its lines, in order.
pub open spec fn error_report(chain: Seq<String>) -> Seq<char>
    decreases chain.len(),
{
    if chain.len() == 0 {
        Seq::empty()
    } else {
        error_report(chain.drop_last()) + error_line(chain.len() - 1, chain.last()@)
    }
}

/// The report of a failed game, from the messages of its error chain (the
/// error first, then its causes); nothing where the game did not fail.
pub fn get_game_error_message(error_chain: Option<&Vec<String>>) -> (r: Option<String>)
    requires
        error_chain matches Some(c) ==> c@.len() <= i64::MAX,
    ensures
        match error_chain {
            Some(c) => r matches Some(s) && s@ == error_report(c@),
            None => r is None,
        },
{
    match error_chain {
        None => None,
        Some(chain) => {
            let mut message = String::new();
            let mut i: usize = 0;
            while i < chain.len()
                invariant
                    i <= chain.len(),
                    chain@.len() <= i64::MAX,
                    message@ == error_report(chain@.subrange(0, i as int)),
                decreases chain.len() - i,
            {
                assert(chain@.subrange(0, i + 1).drop_last() == chain@.subrange(0, i as int));
                assert(chain@.subrange(0, i + 1).last() == chain@[i as int]);
                if i == 0 {
                    message.append("Game error: ");
                } else {
                    message.append("  ");
                    let n = i64_to_string((i - 1) as i64);
                    message.append(n.as_str());
                    message.append(": ");
                }
                message.append(chain[i].as_str());
                message.append(" \n");
                i = i + 1;
            }
            assert(chain@.subrange(0, chain@.len() as int) == chain@);
            Some(message)
        },
    }
}

/// What `Path::extension` gives for a path: the extension of its last
/// component, if it has one.
pub uninterp spec fn extension_of(path: Seq<char>) -> Option<Seq<char>>;

/// `Path::extension` on a UTF-8 path, as text; the result is named
/// `extension_of` and not spelled out here.
#[verifier::external_body]
fn path_extension(path: &str) -> (r: Option<String>)
    ensures
        match r {
            Some(e) => extension_of(path@) == Some(e@),
            None => extension_of(path@) is None,
        },
{
    std::path::Path::new(path).extension().map(|e| e.to_string_lossy().into_owned())
}

/// Why an asset path was refused.
#[derive(Debug, Clone)]
pub enum AssetPathError {
    /// The path does not exist or has no extension.
    InvalidAssetPath(String),
    /// The extension is not one of the allowed formats.
    InvalidAssetFormat(Vec<String>, String),
}

/// Whether the text is one of the strings.
pub open spec fn among(allowed: Seq<&str>, e: Seq<char>) -> bool {
    exists|i: int| 0 <= i < allowed.len() && allowed[i]@ == e
}

/// Whether an asset path is accepted: it exists and its extension is allowed.
pub open spec fn asset_path_ok(path: Seq<char>, path_exists: bool, allowed: Seq<&str>) -> bool {
    path_exists && match extension_of(path) {
        Some(e) => among(allowed, e),
        None => false,
    }
}

/// Checks an asset path: it must exist (`path_exists` tells whether it does) and
/// have one of the allowed extensions.
pub fn validate_asset_path(path: &str, path_exists: bool, allowed_formats: &Vec<&str>) -> (r: Result<
    (),
    AssetPathError,
>)
    ensures
        r is Ok <==> asset_path_ok(path@, path_exists, allowed_formats@),
        match r {
            Ok(_) => true,
            Err(AssetPathError::InvalidAssetPath(p)) => p@ == path@ && (!path_exists || extension_of(path@) is None),
            Err(AssetPathError::InvalidAssetFormat(a, got)) => {
                &&& path_exists
                &&& extension_of(path@) == Some(got@)
                &&& !among(allowed_formats@, got@)
                &&& a@.len() == allowed_formats@.len()
                &&& forall|i: int| 0 <= i < a@.len() ==> #[trigger] a@[i]@ == allowed_formats@[i]@
            },
        },
{
    if !path_exists {
        return Err(AssetPathError::InvalidAssetPath(path.to_string()));
    }
    match path_extension(path) {
        None => Err(AssetPathError::InvalidAssetPath(path.to_string())),
        Some(ext) => {
            let e = str_chars(ext.as_str());
            let mut i: usize = 0;
            while i < allowed_formats.len()
                invariant
                    i <= allowed_formats.len(),
                    e@ == ext@,
                    path_exists,
                    extension_of(path@) == Some(ext@),
                    forall|j: int| 0 <= j < i ==> allowed_formats@[j]@ != ext@,
                decreases allowed_formats.len() - i,
            {
                let a = str_chars(allowed_formats[i]);
                if crate::text::chars_eq(a.as_slice(), e.as_slice()) {
                    assert(allowed_formats@[i as int]@ == ext@);
                    assert(among(allowed_formats@, ext@));
                    return Ok(());
                }
                i = i + 1;
            }
            let mut names: Vec<String> = Vec::new();
            let mut k: usize = 0;
            while k < allowed_formats.len()
                invariant
                    k <= allowed_formats.len(),
                    names@.len() == k,
                    forall|j: int| 0 <= j < k ==> #[trigger] names@[j]@ == allowed_formats@[j]@,
                decreases allowed_formats.len() - k,
            {
                names.push(allowed_formats[k].to_string());
                k = k + 1;
            }
            assert(!among(allowed_formats@, ext@));
            Err(AssetPathError::InvalidAssetFormat(names, ext))
        },
    }
}

} // verus!
