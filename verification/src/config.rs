//! Engine configuration read from INI text: `KEY = value` lines, keys compared
//! without regard to case.
use vstd::prelude::*;
use vstd::string::StringExecFns;

use crate::num::{
    digit_char, i64_to_string, int_decimal, is_digit, lemma_nat_decimal, lemma_parse_i64_of_decimal, nat_decimal, parse_i64,
    str_parse_i64,
};
use crate::table::StrTable;
use crate::text::{
    chars_eq, find, find_from, lemma_split_step, split, str_chars, str_to_lowercase, str_to_uppercase,
    ascii_lower, ascii_upper, is_ascii, lowercase, string_from_chars, uppercase, trim, trimmed,
};

verus! {

broadcast use vstd::string::group_string_axioms;

/// What one INI line does to the settings read so far: blank lines, comments
/// (`;`, `#`) and section headers (`[`) are skipped, as are lines without `=`;
/// otherwise the trimmed text before the first `=`, in upper case, is set to the
/// trimmed text after it.
pub open spec fn ini_line(m: Map<Seq<char>, Seq<char>>, raw: Seq<char>) -> Map<Seq<char>, Seq<char>> {
    let t = trim(raw);
    if t.len() == 0 || t[0] == ';' || t[0] == '#' || t[0] == '[' {
        m
    } else {
        match find(t, '=') {
            Some(eq) => m.insert(
                uppercase(trim(t.subrange(0, eq))),
                trim(t.subrange(eq + 1, t.len() as int)),
            ),
            None => m,
        }
    }
}

/// The lines applied one after another, the first line first.
pub open spec fn ini_lines(m: Map<Seq<char>, Seq<char>>, lines: Seq<Seq<char>>) -> Map<Seq<char>, Seq<char>>
    decreases lines.len(),
{
    if lines.len() == 0 {
        m
    } else {
        ini_lines(ini_line(m, lines[0]), lines.drop_first())
    }
}

/// The settings that INI text holds; a key set twice keeps its last value.
pub open spec fn ini_map(input: Seq<char>) -> Map<Seq<char>, Seq<char>> {
    ini_lines(Map::empty(), split(input, '\n'))
}

/// One step of reading INI text: the first line, then the lines after it.
pub proof fn lemma_ini_step(m: Map<Seq<char>, Seq<char>>, rest: Seq<char>, i: int)
    requires
        0 <= i <= rest.len(),
        forall|j: int| 0 <= j < i ==> rest[j] != '\n',
        i < rest.len() ==> rest[i] == '\n',
    ensures
        ini_lines(m, split(rest, '\n')) == (if i < rest.len() {
            ini_lines(ini_line(m, rest.subrange(0, i)), split(rest.subrange(i + 1, rest.len() as int), '\n'))
        } else {
            ini_line(m, rest)
        }),
{
    lemma_split_step(rest, '\n', i);
    let pieces = split(rest, '\n');
    if i < rest.len() {
        assert(pieces[0] == rest.subrange(0, i));
        assert(pieces.drop_first() == split(rest.subrange(i + 1, rest.len() as int), '\n'));
    } else {
        assert(pieces.drop_first() =~= Seq::<Seq<char>>::empty());
        assert(ini_lines(ini_line(m, rest), Seq::<Seq<char>>::empty()) == ini_line(m, rest));
    }
}

/// The integer a setting holds: the value stored under the key's upper-case
/// form, parsed as `i64`.
pub open spec fn config_int(m: Map<Seq<char>, Seq<char>>, key: Seq<char>) -> Option<i64> {
    if m.contains_key(uppercase(key)) {
        parse_i64(m[uppercase(key)])
    } else {
        None
    }
}

/// The truth value that a (lower-cased) setting spells: `true`, `1` or `yes`,
/// or `false`, `0` or `no`.
pub open spec fn bool_word(s: Seq<char>) -> Option<bool> {
    if s == seq!['t', 'r', 'u', 'e'] || s == seq!['1'] || s == seq!['y', 'e', 's'] {
        Some(true)
    } else if s == seq!['f', 'a', 'l', 's', 'e'] || s == seq!['0'] || s == seq!['n', 'o'] {
        Some(false)
    } else {
        None
    }
}

/// The truth value a setting holds, reading its value in lower case.
pub open spec fn config_bool(m: Map<Seq<char>, Seq<char>>, key: Seq<char>) -> Option<bool> {
    if m.contains_key(uppercase(key)) {
        bool_word(lowercase(m[uppercase(key)]))
    } else {
        None
    }
}

/// Whether `w` is the given word.
fn is_word(w: &Vec<char>, Ghost(word): Ghost<Seq<char>>, c0: char, c1: char, c2: char, c3: char, c4: char, n: usize) -> (r: bool)
    requires
        1 <= n <= 5,
        word.len() == n,
        n > 0 ==> word[0] == c0,
        n > 1 ==> word[1] == c1,
        n > 2 ==> word[2] == c2,
        n > 3 ==> word[3] == c3,
        n > 4 ==> word[4] == c4,
    ensures
        r == (w@ == word),
{
    if w.len() != n {
        return false;
    }
    let r = w[0] == c0 && (n <= 1 || w[1] == c1) && (n <= 2 || w[2] == c2) && (n <= 3 || w[3] == c3)
        && (n <= 4 || w[4] == c4);
    if r {
        assert(w@ =~= word);
    }
    r
}

/// The truth value that `w` spells, as `bool_word` says.
fn read_bool_word(w: &Vec<char>) -> (r: Option<bool>)
    ensures
        r == bool_word(w@),
{
    let ghost gt1 = seq!['t', 'r', 'u', 'e'];
    let t1 = is_word(w, Ghost(gt1), 't', 'r', 'u', 'e', ' ', 4);
    let ghost gt2 = seq!['1'];
    let t2 = is_word(w, Ghost(gt2), '1', ' ', ' ', ' ', ' ', 1);
    let ghost gt3 = seq!['y', 'e', 's'];
    let t3 = is_word(w, Ghost(gt3), 'y', 'e', 's', ' ', ' ', 3);
    let ghost gf1 = seq!['f', 'a', 'l', 's', 'e'];
    let f1 = is_word(w, Ghost(gf1), 'f', 'a', 'l', 's', 'e', 5);
    let ghost gf2 = seq!['0'];
    let f2 = is_word(w, Ghost(gf2), '0', ' ', ' ', ' ', ' ', 1);
    let ghost gf3 = seq!['n', 'o'];
    let f3 = is_word(w, Ghost(gf3), 'n', 'o', ' ', ' ', ' ', 2);
    if t1 || t2 || t3 {
        Some(true)
    } else if f1 || f2 || f3 {
        Some(false)
    } else {
        None
    }
}

/// The text of every value in a table.
#[verifier::opaque]
pub open spec fn text_view(t: &StrTable<String>) -> Map<Seq<char>, Seq<char>> {
    t.view().map_values(|v: String| v@)
}

/// Why a setting could not be read.
#[derive(Debug, Clone)]
pub enum ConfigError {
    /// No value is stored under the key.
    KeyNotFound { key: String },
    /// The stored value is not an `i64`.
    NotAnInteger { key: String, value: String },
    /// The stored value is not a truth value.
    NotABool { key: String, value: String },
}

impl ConfigError {
    /// The text of the error, as the engine reports it.
    pub fn message(&self) -> (r: String)
        ensures
            r@ == match self {
                ConfigError::KeyNotFound { key } => key@ + " not found in config"@,
                ConfigError::NotAnInteger { key, value } => "Config key "@ + key@
                    + " is not a valid integer: "@ + value@,
                ConfigError::NotABool { key, value } => "Config key "@ + key@
                    + " is not a valid bool: "@ + value@,
            },
    {
        match self {
            ConfigError::KeyNotFound { key } => {
                let mut r = key.clone();
                r.append(" not found in config");
                r
            },
            ConfigError::NotAnInteger { key, value } => {
                let mut r = "Config key ".to_string();
                r.append(key.as_str());
                r.append(" is not a valid integer: ");
                r.append(value.as_str());
                r
            },
            ConfigError::NotABool { key, value } => {
                let mut r = "Config key ".to_string();
                r.append(key.as_str());
                r.append(" is not a valid bool: ");
                r.append(value.as_str());
                r
            },
        }
    }
}

/// Engine settings: text values under upper-case keys.
#[derive(Clone)]
pub struct EngineConfig {
    values: StrTable<String>,
}

impl EngineConfig {
    /// The stored keys are distinct.
    pub open spec fn wf(&self) -> bool {
        self.table().wf()
    }

    /// The table behind the settings.
    pub closed spec fn table(&self) -> StrTable<String> {
        self.values
    }

    /// The settings as a map from (upper-case) key text to value text.
    pub open spec fn view(&self) -> Map<Seq<char>, Seq<char>> {
        text_view(&self.table())
    }

    /// Settings with nothing stored.
    pub fn default() -> (r: Self)
        ensures
            r.wf(),
            r.view() == Map::<Seq<char>, Seq<char>>::empty(),
    {
        let r = EngineConfig { values: StrTable::new() };
        reveal(text_view);
        assert(r.view() =~= Map::<Seq<char>, Seq<char>>::empty());
        r
    }

    proof fn lemma_insert_view(old_t: StrTable<String>, new_t: StrTable<String>, k: Seq<char>, v: String)
        requires
            new_t.view() == old_t.view().insert(k, v),
        ensures
            text_view(&new_t) == text_view(&old_t).insert(k, v@),
    {
        reveal(text_view);
        assert(text_view(&new_t) =~= text_view(&old_t).insert(k, v@));
    }

    /// Applies one line, characters `lo .. hi` of `v`, as `ini_line` says.
    fn read_line(values: &mut StrTable<String>, v: &Vec<char>, lo: usize, hi: usize)
        requires
            old(values).wf(),
            lo <= hi <= v.len(),
        ensures
            final(values).wf(),
            text_view(&*final(values)) == ini_line(
                text_view(&*old(values)),
                v@.subrange(lo as int, hi as int),
            ),
    {
        let t = trimmed(v, lo, hi);
        if t.len() == 0 || t[0] == ';' || t[0] == '#' || t[0] == '[' {
            return;
        }
        let eq = find_from(&t, 0, t.len(), '=');
        proof {
            crate::text::lemma_find(t@, '=', eq as int);
        }
        if eq == t.len() {
            return;
        }
        let key = trimmed(&t, 0, eq);
        let value = trimmed(&t, eq + 1, t.len());
        let key_text = string_from_chars(key.as_slice());
        let upper = str_to_uppercase(key_text.as_str());
        let value_text = string_from_chars(value.as_slice());
        let ghost old_t = *values;
        values.insert(upper, value_text);
        proof {
            Self::lemma_insert_view(old_t, *values, upper@, value_text);
        }
    }

    /// Reads settings from INI text.
    #[verifier::rlimit(40)]
    pub fn from_ini(input: &str) -> (r: Self)
        ensures
            r.wf(),
            r.view() == ini_map(input@),
    {
        let v = str_chars(input);
        let mut values: StrTable<String> = StrTable::new();
        reveal(text_view);
        assert(text_view(&values) =~= Map::<Seq<char>, Seq<char>>::empty());
        assert(v@.subrange(0, v@.len() as int) == v@);
        let mut pos: usize = 0;
        loop
            invariant_except_break
                pos <= v.len(),
                values.wf(),
                ini_lines(
                    text_view(&values),
                    split(v@.subrange(pos as int, v@.len() as int), '\n'),
                ) == ini_map(v@),
            ensures
                values.wf(),
                text_view(&values) == ini_map(v@),
            decreases v.len() - pos,
        {
            let end = find_from(&v, pos, v.len(), '\n');
            let ghost rest = v@.subrange(pos as int, v@.len() as int);
            let ghost before = text_view(&values);
            proof {
                lemma_ini_step(before, rest, end - pos);
                assert(rest.subrange(0, end - pos) == v@.subrange(pos as int, end as int));
                assert(end < v.len() ==> rest.subrange(end - pos + 1, rest.len() as int) == v@.subrange(
                    end + 1,
                    v@.len() as int,
                ));
            }
            Self::read_line(&mut values, &v, pos, end);
            if end == v.len() {
                assert(rest.subrange(0, end - pos) == rest);
                break;
            }
            pos = end + 1;
        }
        EngineConfig { values }
    }

    /// Stores `value`, in decimal, under the upper-case form of `key`.
    pub fn set(&mut self, key: &str, value: i64)
        requires
            old(self).wf(),
        ensures
            final(self).wf(),
            final(self).view() == old(self).view().insert(uppercase(key@), int_decimal(value as int)),
    {
        let upper = str_to_uppercase(key);
        let text = i64_to_string(value);
        let ghost old_t = self.values;
        self.values.insert(upper, text);
        proof {
            Self::lemma_insert_view(old_t, self.values, upper@, text);
        }
    }

    /// The integer stored under `key`, compared without regard to case.
    pub fn get_int(&self, key: &str) -> (r: Result<i64, ConfigError>)
        requires
            self.wf(),
        ensures
            r is Ok <==> config_int(self.view(), key@) is Some,
            r matches Ok(n) ==> config_int(self.view(), key@) == Some(n),
            r matches Err(e) ==> match e {
                ConfigError::KeyNotFound { key: k } => k@ == key@ && !self.view().contains_key(
                    uppercase(key@),
                ),
                ConfigError::NotAnInteger { key: k, value } => k@ == key@ && self.view().contains_key(
                    uppercase(key@),
                ) && value@ == self.view()[uppercase(key@)],
                ConfigError::NotABool { .. } => false,
            },
    {
        proof {
            reveal(text_view);
        }
        let upper = str_to_uppercase(key);
        match self.values.get(&upper) {
            None => Err(ConfigError::KeyNotFound { key: key.to_string() }),
            Some(s) => match str_parse_i64(s.as_str()) {
                Some(n) => Ok(n),
                None => Err(ConfigError::NotAnInteger { key: key.to_string(), value: s.clone() }),
            },
        }
    }

    /// The truth value stored under `key`, compared without regard to case;
    /// the value may be `true`, `1`, `yes`, `false`, `0` or `no`, in any case.
    pub fn get_bool(&self, key: &str) -> (r: Result<bool, ConfigError>)
        requires
            self.wf(),
        ensures
            r is Ok <==> config_bool(self.view(), key@) is Some,
            r matches Ok(b) ==> config_bool(self.view(), key@) == Some(b),
            r matches Err(e) ==> match e {
                ConfigError::KeyNotFound { key: k } => k@ == key@ && !self.view().contains_key(
                    uppercase(key@),
                ),
                ConfigError::NotABool { key: k, value } => k@ == key@ && self.view().contains_key(
                    uppercase(key@),
                ) && value@ == self.view()[uppercase(key@)],
                ConfigError::NotAnInteger { .. } => false,
            },
    {
        proof {
            reveal(text_view);
        }
        let upper = str_to_uppercase(key);
        match self.values.get(&upper) {
            None => Err(ConfigError::KeyNotFound { key: key.to_string() }),
            Some(s) => {
                let lower = str_to_lowercase(s.as_str());
                let w = str_chars(lower.as_str());
                match read_bool_word(&w) {
                    Some(b) => Ok(b),
                    None => Err(ConfigError::NotABool { key: key.to_string(), value: s.clone() }),
                }
            },
        }
    }
}

/// After `set(key, v)`, `get_int(key)` gives `v` back.
pub proof fn lemma_get_int_after_set(m: Map<Seq<char>, Seq<char>>, key: Seq<char>, v: i64)
    ensures
        config_int(m.insert(uppercase(key), int_decimal(v as int)), key) == Some(v),
{
    lemma_parse_i64_of_decimal(v);
}

/// `set` under one key leaves every key with a different upper-case form as it was.
pub proof fn lemma_set_keeps_other_keys(
    m: Map<Seq<char>, Seq<char>>,
    key: Seq<char>,
    other: Seq<char>,
    v: i64,
)
    requires
        uppercase(key) != uppercase(other),
    ensures
        config_int(m.insert(uppercase(key), int_decimal(v as int)), other) == config_int(m, other),
        config_bool(m.insert(uppercase(key), int_decimal(v as int)), other) == config_bool(m, other),
{
}

/// Keys that differ only in case name the same setting.
pub proof fn lemma_keys_ignore_case(m: Map<Seq<char>, Seq<char>>, key: Seq<char>, other: Seq<char>)
    requires
        uppercase(key) == uppercase(other),
    ensures
        config_int(m, key) == config_int(m, other),
        config_bool(m, key) == config_bool(m, other),
{
}

/// The decimal text of a number reads the same in lower case.
proof fn lemma_decimal_is_lower(v: int)
    ensures
        lowercase(int_decimal(v)) == int_decimal(v),
        int_decimal(v).len() > 0,
        int_decimal(v)[0] == '-' || is_digit(int_decimal(v)[0]),
        (v < 0 || v >= 10) ==> int_decimal(v).len() >= 2,
{
    let n: nat = if v < 0 { (-v) as nat } else { v as nat };
    lemma_nat_decimal(n);
    let s = int_decimal(v);
    if n >= 10 {
        lemma_nat_decimal(n / 10);
    }
    assert forall|i: int| 0 <= i < s.len() implies s[i] == '-' || is_digit(s[i]) by {
        if v < 0 {
            if i > 0 {
                assert(s[i] == nat_decimal(n)[i - 1]);
            }
        }
    }
    assert(is_ascii(s));
    assert(ascii_lower(s) =~= s);
}

/// After `set(key, v)`, `get_bool(key)` reads `0` as false and `1` as true,
/// and any other number as no truth value.
pub proof fn lemma_get_bool_after_set(m: Map<Seq<char>, Seq<char>>, key: Seq<char>, v: i64)
    ensures
        config_bool(m.insert(uppercase(key), int_decimal(v as int)), key) == (if v == 0 {
            Some(false)
        } else if v == 1 {
            Some(true)
        } else {
            None::<bool>
        }),
{
    let s = int_decimal(v as int);
    lemma_decimal_is_lower(v as int);
    if 0 <= v < 10 {
        reveal_with_fuel(nat_decimal, 2);
        assert(s == seq![digit_char(v as int)]);
    }
    if v != 0 && v != 1 {
        assert(s != seq!['1']);
        assert(s != seq!['0']);
        assert(s != seq!['t', 'r', 'u', 'e']);
        assert(s != seq!['y', 'e', 's']);
        assert(s != seq!['f', 'a', 'l', 's', 'e']);
        assert(s != seq!['n', 'o']);
    }
}

/// ASCII keys that differ only in the case of their letters name the same
/// setting.
pub proof fn lemma_ascii_keys_ignore_case(m: Map<Seq<char>, Seq<char>>, key: Seq<char>, other: Seq<char>)
    requires
        is_ascii(key),
        is_ascii(other),
        ascii_upper(key) == ascii_upper(other),
    ensures
        config_int(m, key) == config_int(m, other),
        config_bool(m, key) == config_bool(m, other),
{
}

} // verus!
