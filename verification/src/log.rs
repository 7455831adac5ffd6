//! Logging settings: the engine's log contexts and their names, and the
//! per-context levels read from a setting such as `"ecs: debug, frame=off"`.
use vstd::prelude::*;
use vstd::string::StringExecFns;

use crate::table::StrTable;
use crate::text::{
    chars_eq, find, find_from, lemma_find, lemma_split_step, split, str_chars, str_to_lowercase,
    ascii_lower, is_ascii, lowercase, string_from_chars, trim, trimmed,
};

verus! {

broadcast use vstd::string::group_string_axioms;

/// The parts of the engine that log under their own name.
#[derive(Debug, Clone, Copy, PartialEq, Eq, Hash)]
pub enum LogContext {
    HotReload,
    Engine,
    Input,
    ECS,
    Rendering,
    Resources,
    Frame,
}

/// The snake-case name of a context, which is also its log target.
pub open spec fn context_name(c: LogContext) -> Seq<char> {
    match c {
        LogContext::HotReload => seq!['h', 'o', 't', '_', 'r', 'e', 'l', 'o', 'a', 'd'],
        LogContext::Engine => seq!['e', 'n', 'g', 'i', 'n', 'e'],
        LogContext::Input => seq!['i', 'n', 'p', 'u', 't'],
        LogContext::ECS => seq!['e', 'c', 's'],
        LogContext::Rendering => seq!['r', 'e', 'n', 'd', 'e', 'r', 'i', 'n', 'g'],
        LogContext::Resources => seq!['r', 'e', 's', 'o', 'u', 'r', 'c', 'e', 's'],
        LogContext::Frame => seq!['f', 'r', 'a', 'm', 'e'],
    }
}

impl LogContext {
    /// The snake-case name of the context.
    pub fn as_ref(&self) -> (r: &'static str)
        ensures
            r@ == context_name(*self),
    {
        match self {
            LogContext::HotReload => {
                proof {
                    reveal_strlit("hot_reload");
                }
                "hot_reload"
            },
            LogContext::Engine => {
                proof {
                    reveal_strlit("engine");
                }
                "engine"
            },
            LogContext::Input => {
                proof {
                    reveal_strlit("input");
                }
                "input"
            },
            LogContext::ECS => {
                proof {
                    reveal_strlit("ecs");
                }
                "ecs"
            },
            LogContext::Rendering => {
                proof {
                    reveal_strlit("rendering");
                }
                "rendering"
            },
            LogContext::Resources => {
                proof {
                    reveal_strlit("resources");
                }
                "resources"
            },
            LogContext::Frame => {
                proof {
                    reveal_strlit("frame");
                }
                "frame"
            },
        }
    }
}

/// Every context, in declaration order.
pub open spec fn all_contexts() -> Seq<LogContext> {
    seq![
        LogContext::HotReload,
        LogContext::Engine,
        LogContext::Input,
        LogContext::ECS,
        LogContext::Rendering,
        LogContext::Resources,
        LogContext::Frame,
    ]
}

/// `"<name>: info"` for each of the contexts, joined with `", "`.
pub open spec fn info_levels(cs: Seq<LogContext>) -> Seq<char>
    decreases cs.len(),
{
    if cs.len() == 0 {
        Seq::empty()
    } else if cs.len() == 1 {
        context_name(cs[0]) + seq![':', ' ', 'i', 'n', 'f', 'o']
    } else {
        context_name(cs[0]) + seq![':', ' ', 'i', 'n', 'f', 'o', ',', ' '] + info_levels(cs.drop_first())
    }
}

/// The default setting: every context at level `info`, in declaration order.
pub fn get_default_log_levels() -> (r: String)
    ensures
        r@ == info_levels(all_contexts()),
{
    let contexts: [LogContext; 7] = [
        LogContext::HotReload,
        LogContext::Engine,
        LogContext::Input,
        LogContext::ECS,
        LogContext::Rendering,
        LogContext::Resources,
        LogContext::Frame,
    ];
    proof {
        reveal_strlit(": info");
        reveal_strlit(", ");
        assert(contexts@ == all_contexts());
    }
    let mut r = String::new();
    let mut i: usize = 7;
    // Built from the last context to the first: each step puts one entry in front.
    while i > 0
        invariant
            0 <= i <= 7,
            contexts@ == all_contexts(),
            r@ == info_levels(all_contexts().subrange(i as int, 7)),
        decreases i,
    {
        let ghost tail = all_contexts().subrange(i as int, 7);
        let ghost cs = all_contexts().subrange(i - 1, 7);
        assert(cs.drop_first() == tail);
        assert(cs[0] == contexts@[i - 1]);
        let mut entry = contexts[i - 1].as_ref().to_string();
        entry.append(": info");
        if i < 7 {
            entry.append(", ");
        }
        entry.append(r.as_str());
        proof {
            reveal_strlit(": info");
            reveal_strlit(", ");
            assert(": info"@ =~= seq![':', ' ', 'i', 'n', 'f', 'o']);
            assert(", "@ =~= seq![',', ' ']);
            if i < 7 {
                assert(cs.len() >= 2);
                assert(seq![':', ' ', 'i', 'n', 'f', 'o', ',', ' '] =~= ": info"@ + ", "@);
                assert(entry@ =~= context_name(cs[0]) + seq![':', ' ', 'i', 'n', 'f', 'o', ',', ' ']
                    + info_levels(tail));
            } else {
                assert(cs.len() == 1);
                assert(tail.len() == 0);
                assert(entry@ =~= context_name(cs[0]) + seq![':', ' ', 'i', 'n', 'f', 'o']);
            }
        }
        r = entry;
        i = i - 1;
    }
    assert(all_contexts().subrange(0, 7) == all_contexts());
    r
}

/// How much is logged: nothing, or messages up to the given severity.
#[derive(Debug, Clone, Copy, PartialEq, Eq, Hash)]
pub enum LevelFilter {
    Off,
    Error,
    Warn,
    Info,
    Debug,
    Trace,
}

/// The level a lower-case level word names: `info`, `debug`, `warning`, `error`
/// or `off`; anything else means `info`.
pub open spec fn level_word(w: Seq<char>) -> LevelFilter {
    if w == seq!['i', 'n', 'f', 'o'] {
        LevelFilter::Info
    } else if w == seq!['d', 'e', 'b', 'u', 'g'] {
        LevelFilter::Debug
    } else if w == seq!['w', 'a', 'r', 'n', 'i', 'n', 'g'] {
        LevelFilter::Warn
    } else if w == seq!['e', 'r', 'r', 'o', 'r'] {
        LevelFilter::Error
    } else if w == seq!['o', 'f', 'f'] {
        LevelFilter::Off
    } else {
        LevelFilter::Info
    }
}

/// Whether `w` spells the literal `lit`.
fn is_lit(w: &Vec<char>, lit: &str) -> (r: bool)
    ensures
        r == (w@ == lit@),
{
    let l = str_chars(lit);
    chars_eq(w.as_slice(), l.as_slice())
}

/// The level a level word names, read without regard to case.
pub fn parse_log_level(level: &str) -> (r: LevelFilter)
    ensures
        r == level_word(lowercase(level@)),
{
    let lower = str_to_lowercase(level);
    let w = str_chars(lower.as_str());
    proof {
        reveal_strlit("info");
        reveal_strlit("debug");
        reveal_strlit("warning");
        reveal_strlit("error");
        reveal_strlit("off");
        assert("info"@ =~= seq!['i', 'n', 'f', 'o']);
        assert("debug"@ =~= seq!['d', 'e', 'b', 'u', 'g']);
        assert("warning"@ =~= seq!['w', 'a', 'r', 'n', 'i', 'n', 'g']);
        assert("error"@ =~= seq!['e', 'r', 'r', 'o', 'r']);
        assert("off"@ =~= seq!['o', 'f', 'f']);
        assert(w@ == lowercase(level@));
    }
    if is_lit(&w, "info") {
        LevelFilter::Info
    } else if is_lit(&w, "debug") {
        LevelFilter::Debug
    } else if is_lit(&w, "warning") {
        LevelFilter::Warn
    } else if is_lit(&w, "error") {
        LevelFilter::Error
    } else if is_lit(&w, "off") {
        LevelFilter::Off
    } else {
        LevelFilter::Info
    }
}

/// What one comma-separated entry does to the levels read so far. The entry is
/// trimmed and skipped if empty; it is split at its first `=`, or else at its
/// first `:`; the context is the trimmed text before, the level the trimmed
/// text after, read by `level_word` in lower case. An entry with neither
/// separator sets its whole text to `info`.
#[verifier::opaque]
pub open spec fn log_entry(m: Map<Seq<char>, LevelFilter>, raw: Seq<char>) -> Map<Seq<char>, LevelFilter> {
    let t = trim(raw);
    if t.len() == 0 {
        m
    } else {
        match find(t, '=') {
            Some(i) => m.insert(
                trim(t.subrange(0, i)),
                level_word(lowercase(trim(t.subrange(i + 1, t.len() as int)))),
            ),
            None => match find(t, ':') {
                Some(i) => m.insert(
                    trim(t.subrange(0, i)),
                    level_word(lowercase(trim(t.subrange(i + 1, t.len() as int)))),
                ),
                None => m.insert(t, LevelFilter::Info),
            },
        }
    }
}

/// The entries applied one after another, the first entry first.
pub open spec fn log_entries(m: Map<Seq<char>, LevelFilter>, entries: Seq<Seq<char>>) -> Map<
    Seq<char>,
    LevelFilter,
>
    decreases entries.len(),
{
    if entries.len() == 0 {
        m
    } else {
        log_entries(log_entry(m, entries[0]), entries.drop_first())
    }
}

/// The level of each context that a setting names; a context named twice keeps
/// its last level.
pub open spec fn log_settings(s: Seq<char>) -> Map<Seq<char>, LevelFilter> {
    log_entries(Map::empty(), split(s, ','))
}

/// One step of reading a setting: the first entry, then the entries after it.
proof fn lemma_log_step(m: Map<Seq<char>, LevelFilter>, rest: Seq<char>, i: int)
    requires
        0 <= i <= rest.len(),
        forall|j: int| 0 <= j < i ==> rest[j] != ',',
        i < rest.len() ==> rest[i] == ',',
    ensures
        log_entries(m, split(rest, ',')) == (if i < rest.len() {
            log_entries(log_entry(m, rest.subrange(0, i)), split(rest.subrange(i + 1, rest.len() as int), ','))
        } else {
            log_entry(m, rest)
        }),
{
    lemma_split_step(rest, ',', i);
    let pieces = split(rest, ',');
    if i < rest.len() {
        assert(pieces[0] == rest.subrange(0, i));
        assert(pieces.drop_first() == split(rest.subrange(i + 1, rest.len() as int), ','));
    } else {
        assert(pieces.drop_first() =~= Seq::<Seq<char>>::empty());
        assert(log_entries(log_entry(m, rest), Seq::<Seq<char>>::empty()) == log_entry(m, rest));
    }
}

/// Applies one entry, characters `lo .. hi` of `v`, as `log_entry` says.
fn read_entry(levels: &mut StrTable<LevelFilter>, v: &Vec<char>, lo: usize, hi: usize)
    requires
        old(levels).wf(),
        lo <= hi <= v.len(),
    ensures
        final(levels).wf(),
        final(levels).view() == log_entry(old(levels).view(), v@.subrange(lo as int, hi as int)),
{
    reveal(log_entry);
    let t = trimmed(v, lo, hi);
    if t.len() == 0 {
        return;
    }
    let eq = find_from(&t, 0, t.len(), '=');
    proof {
        lemma_find(t@, '=', eq as int);
    }
    let sep = if eq < t.len() {
        eq
    } else {
        let colon = find_from(&t, 0, t.len(), ':');
        proof {
            lemma_find(t@, ':', colon as int);
        }
        colon
    };
    if sep == t.len() {
        let name = string_from_chars(t.as_slice());
        levels.insert(name, LevelFilter::Info);
        return;
    }
    let context = trimmed(&t, 0, sep);
    let level = trimmed(&t, sep + 1, t.len());
    let name = string_from_chars(context.as_slice());
    let level_text = string_from_chars(level.as_slice());
    let parsed = parse_log_level(level_text.as_str());
    levels.insert(name, parsed);
}

/// Reads the per-context levels from a setting such as
/// `"ecs: debug, renderer: info"` or `"ecs=debug, renderer=info"`.
#[verifier::rlimit(40)]
pub fn parse_config_log_settings(log_levels_config_setting: &str) -> (r: StrTable<LevelFilter>)
    ensures
        r.wf(),
        r.view() == log_settings(log_levels_config_setting@),
{
    let v = str_chars(log_levels_config_setting);
    let mut levels: StrTable<LevelFilter> = StrTable::new();
    assert(v@.subrange(0, v@.len() as int) == v@);
    let mut pos: usize = 0;
    loop
        invariant_except_break
            pos <= v.len(),
            levels.wf(),
            log_entries(levels.view(), split(v@.subrange(pos as int, v@.len() as int), ',')) == log_settings(
                v@,
            ),
        ensures
            levels.wf(),
            levels.view() == log_settings(v@),
        decreases v.len() - pos,
    {
        let end = find_from(&v, pos, v.len(), ',');
        let ghost rest = v@.subrange(pos as int, v@.len() as int);
        proof {
            lemma_log_step(levels.view(), rest, end - pos);
            assert(rest.subrange(0, end - pos) == v@.subrange(pos as int, end as int));
            assert(end < v.len() ==> rest.subrange(end - pos + 1, rest.len() as int) == v@.subrange(
                end + 1,
                v@.len() as int,
            ));
        }
        read_entry(&mut levels, &v, pos, end);
        if end == v.len() {
            assert(rest.subrange(0, end - pos) == rest);
            break;
        }
        pos = end + 1;
    }
    levels
}

/// Whether a character may stand in a context name read from a setting: it
/// is no separator and no whitespace.
pub open spec fn name_char(c: char) -> bool {
    c != ',' && c != ':' && c != '=' && !crate::text::is_ws(c)
}

/// Whether every character of `s` may stand in a context name.
pub open spec fn plain(s: Seq<char>) -> bool
    decreases s.len(),
{
    s.len() == 0 || (name_char(s[0]) && plain(s.drop_first()))
}

proof fn lemma_plain(s: Seq<char>)
    requires
        plain(s),
    ensures
        forall|j: int| 0 <= j < s.len() ==> name_char(#[trigger] s[j]),
    decreases s.len(),
{
    if s.len() > 0 {
        lemma_plain(s.drop_first());
        assert forall|j: int| 0 <= j < s.len() implies name_char(#[trigger] s[j]) by {
            if j > 0 {
                assert(s[j] == s.drop_first()[j - 1]);
            }
        }
    }
}

proof fn lemma_context_name_plain(c: LogContext)
    ensures
        context_name(c).len() > 0,
        forall|j: int| 0 <= j < context_name(c).len() ==> name_char(#[trigger] context_name(c)[j]),
{
    reveal_with_fuel(plain, 11);
    match c {
        LogContext::HotReload => {
            assert(plain(seq!['h', 'o', 't', '_', 'r', 'e', 'l', 'o', 'a', 'd']));
        },
        LogContext::Engine => {
            assert(plain(seq!['e', 'n', 'g', 'i', 'n', 'e']));
        },
        LogContext::Input => {
            assert(plain(seq!['i', 'n', 'p', 'u', 't']));
        },
        LogContext::ECS => {
            assert(plain(seq!['e', 'c', 's']));
        },
        LogContext::Rendering => {
            assert(plain(seq!['r', 'e', 'n', 'd', 'e', 'r', 'i', 'n', 'g']));
        },
        LogContext::Resources => {
            assert(plain(seq!['r', 'e', 's', 'o', 'u', 'r', 'c', 'e', 's']));
        },
        LogContext::Frame => {
            assert(plain(seq!['f', 'r', 'a', 'm', 'e']));
        },
    }
    lemma_plain(context_name(c));
}

/// The level that the word `info` names.
pub open spec fn info_level() -> LevelFilter {
    level_word(lowercase(seq!['i', 'n', 'f', 'o']))
}

/// The levels with each of the contexts set to `info_level`, in order.
pub open spec fn set_to_info(m: Map<Seq<char>, LevelFilter>, cs: Seq<LogContext>) -> Map<Seq<char>, LevelFilter>
    decreases cs.len(),
{
    if cs.len() == 0 {
        m
    } else {
        set_to_info(m.insert(context_name(cs[0]), info_level()), cs.drop_first())
    }
}

/// The space after a comma, where there is one.
pub open spec fn lead_space(lead: bool) -> Seq<char> {
    if lead {
        seq![' ']
    } else {
        Seq::<char>::empty()
    }
}

/// One default entry, `"<name>: info"`, after the space that follows a comma
/// where there is one.
pub open spec fn default_entry(c: LogContext, lead: bool) -> Seq<char> {
    lead_space(lead) + context_name(c) + seq![':', ' ', 'i', 'n', 'f', 'o']
}

/// One default entry, with or without the space that follows a comma, sets
/// its context to `info_level`.
proof fn lemma_info_entry(m: Map<Seq<char>, LevelFilter>, c: LogContext, lead: bool)
    ensures
        log_entry(m, default_entry(c, lead)) == m.insert(context_name(c), info_level()),
{
    reveal(log_entry);
    lemma_context_name_plain(c);
    let name = context_name(c);
    let e = name + seq![':', ' ', 'i', 'n', 'f', 'o'];
    let raw = default_entry(c, lead);
    assert(raw == lead_space(lead) + e);
    assert(!crate::text::is_ws(name[0]));
    assert(e[0] == name[0]);
    assert(crate::text::trim_start(e) == e);
    if lead {
        assert(raw.drop_first() == e);
        assert(crate::text::trim_start(raw) == e);
    } else {
        assert(raw == e);
    }
    assert(e.last() == 'o');
    assert(crate::text::trim_end(e) == e);
    assert(trim(raw) == e);
    let t = e;
    let n = name.len() as int;
    assert forall|j: int| 0 <= j < t.len() implies t[j] != '=' by {
        if j < n {
            assert(t[j] == name[j]);
        }
    }
    crate::text::lemma_find(t, '=', t.len() as int);
    assert forall|j: int| 0 <= j < n implies t[j] != ':' by {
        assert(t[j] == name[j]);
    }
    assert(t[n] == ':');
    crate::text::lemma_find(t, ':', n);
    assert(t.subrange(0, n) == name);
    assert(crate::text::trim_start(name) == name);
    assert(crate::text::trim_end(name) == name);
    let lv = t.subrange(n + 1, t.len() as int);
    assert(lv == seq![' ', 'i', 'n', 'f', 'o']);
    assert(lv.drop_first() == seq!['i', 'n', 'f', 'o']);
    assert(crate::text::trim_start(seq!['i', 'n', 'f', 'o']) == seq!['i', 'n', 'f', 'o']);
    assert(crate::text::trim_start(lv) == seq!['i', 'n', 'f', 'o']);
    assert(crate::text::trim_end(seq!['i', 'n', 'f', 'o']) == seq!['i', 'n', 'f', 'o']);
}

/// Splitting at a comma that follows a comma-free entry gives the entry, then
/// the pieces after the comma.
proof fn lemma_split_at_comma(e: Seq<char>, tail: Seq<char>)
    requires
        forall|j: int| 0 <= j < e.len() ==> e[j] != ',',
    ensures
        split(e + seq![','] + tail, ',') == seq![e] + split(tail, ','),
        split(e, ',') == seq![e],
{
    let s = e + seq![','] + tail;
    let k = e.len() as int;
    assert(s[k] == ',');
    assert forall|j: int| 0 <= j < k implies s[j] != ',' by {
        assert(s[j] == e[j]);
    }
    lemma_split_step(s, ',', k);
    assert(s.subrange(0, k) == e);
    assert(s.subrange(k + 1, s.len() as int) == tail);
    lemma_split_step(e, ',', k);
}

/// The first default entry, with the optional leading space, holds no comma.
proof fn lemma_entry_has_no_comma(c: LogContext, lead: bool)
    ensures
        forall|j: int| 0 <= j < default_entry(c, lead).len() ==> #[trigger] default_entry(c, lead)[j] != ',',
{
    lemma_context_name_plain(c);
    let pre = lead_space(lead);
    let name = context_name(c);
    let e = default_entry(c, lead);
    assert(e == pre + name + seq![':', ' ', 'i', 'n', 'f', 'o']);
    assert forall|j: int| 0 <= j < e.len() implies #[trigger] e[j] != ',' by {
        if j >= pre.len() && j < pre.len() + name.len() {
            assert(e[j] == name[j - pre.len()]);
        }
    }
}

/// Reading entries one after another: the first entry, then the rest.
proof fn lemma_entries_cons(m: Map<Seq<char>, LevelFilter>, e: Seq<char>, rest: Seq<Seq<char>>)
    ensures
        log_entries(m, seq![e] + rest) == log_entries(log_entry(m, e), rest),
{
    let all = seq![e] + rest;
    assert(all[0] == e);
    assert(all.drop_first() =~= rest);
}

/// The default text of a list of contexts: its first entry, then a comma and
/// the text of the rest.
proof fn lemma_info_levels_cons(cs: Seq<LogContext>, lead: bool)
    requires
        cs.len() >= 1,
    ensures
        cs.len() == 1 ==> lead_space(lead) + info_levels(cs) == default_entry(cs[0], lead),
        cs.len() >= 2 ==> lead_space(lead) + info_levels(cs) == default_entry(cs[0], lead) + seq![','] + (
        lead_space(true) + info_levels(cs.drop_first())),
{
    if cs.len() == 1 {
        assert(lead_space(lead) + info_levels(cs) =~= default_entry(cs[0], lead));
    } else {
        assert(lead_space(lead) + info_levels(cs) =~= default_entry(cs[0], lead) + seq![','] + (lead_space(true)
            + info_levels(cs.drop_first())));
    }
}

/// Reading the default entries of the contexts, joined with `", "`, sets each
/// of them to `info_level`, in order.
proof fn lemma_info_levels_fold(m: Map<Seq<char>, LevelFilter>, cs: Seq<LogContext>, lead: bool)
    requires
        cs.len() >= 1,
    ensures
        log_entries(m, split(lead_space(lead) + info_levels(cs), ',')) == set_to_info(m, cs),
    decreases cs.len(),
{
    let e = default_entry(cs[0], lead);
    let m1 = m.insert(context_name(cs[0]), info_level());
    lemma_entry_has_no_comma(cs[0], lead);
    lemma_info_entry(m, cs[0], lead);
    lemma_info_levels_cons(cs, lead);
    if cs.len() == 1 {
        assert(split(lead_space(lead) + info_levels(cs), ',') == seq![e]) by {
            lemma_split_at_comma(e, Seq::empty());
        }
        lemma_entries_cons(m, e, Seq::empty());
        assert(seq![e] + Seq::<Seq<char>>::empty() =~= seq![e]);
        assert(log_entries(m1, Seq::<Seq<char>>::empty()) == m1);
        assert(cs.drop_first() =~= Seq::<LogContext>::empty());
        assert(set_to_info(m1, Seq::<LogContext>::empty()) == m1);
        assert(set_to_info(m, cs) == set_to_info(m1, cs.drop_first()));
    } else {
        let tail = lead_space(true) + info_levels(cs.drop_first());
        assert(split(lead_space(lead) + info_levels(cs), ',') == seq![e] + split(tail, ',')) by {
            lemma_split_at_comma(e, tail);
        }
        lemma_entries_cons(m, e, split(tail, ','));
        lemma_info_levels_fold(m1, cs.drop_first(), true);
        assert(set_to_info(m, cs) == set_to_info(m1, cs.drop_first()));
    }
}

/// Setting contexts to `info_level` keeps every key already at that level.
proof fn lemma_set_to_info_keeps(m: Map<Seq<char>, LevelFilter>, cs: Seq<LogContext>, x: Seq<char>)
    requires
        m.contains_key(x),
        m[x] == info_level(),
    ensures
        set_to_info(m, cs).contains_key(x),
        set_to_info(m, cs)[x] == info_level(),
    decreases cs.len(),
{
    if cs.len() > 0 {
        lemma_set_to_info_keeps(m.insert(context_name(cs[0]), info_level()), cs.drop_first(), x);
    }
}

/// Every context of the list ends up at `info_level`.
proof fn lemma_set_to_info_has(m: Map<Seq<char>, LevelFilter>, cs: Seq<LogContext>, i: int)
    requires
        0 <= i < cs.len(),
    ensures
        set_to_info(m, cs).contains_key(context_name(cs[i])),
        set_to_info(m, cs)[context_name(cs[i])] == info_level(),
    decreases cs.len(),
{
    let m1 = m.insert(context_name(cs[0]), info_level());
    if i == 0 {
        lemma_set_to_info_keeps(m1, cs.drop_first(), context_name(cs[0]));
    } else {
        lemma_set_to_info_has(m1, cs.drop_first(), i - 1);
        assert(cs.drop_first()[i - 1] == cs[i]);
    }
}

/// The place of each context in the list of all contexts.
pub open spec fn context_index(c: LogContext) -> int {
    match c {
        LogContext::HotReload => 0,
        LogContext::Engine => 1,
        LogContext::Input => 2,
        LogContext::ECS => 3,
        LogContext::Rendering => 4,
        LogContext::Resources => 5,
        LogContext::Frame => 6,
    }
}

proof fn lemma_no_lead(s: Seq<char>)
    ensures
        lead_space(false) + s == s,
{
    assert(lead_space(false) + s =~= s);
}

/// Every context ends up at `info_level` when all contexts are set to it.
proof fn lemma_all_set_to_info(c: LogContext)
    ensures
        set_to_info(Map::empty(), all_contexts()).contains_key(context_name(c)),
        set_to_info(Map::empty(), all_contexts())[context_name(c)] == info_level(),
{
    let i = context_index(c);
    assert(all_contexts()[i] == c);
    lemma_set_to_info_has(Map::empty(), all_contexts(), i);
}

/// The word `info`, read without regard to case, names `LevelFilter::Info`.
proof fn lemma_info_level_is_info()
    ensures
        info_level() == LevelFilter::Info,
{
    let w = seq!['i', 'n', 'f', 'o'];
    assert(is_ascii(w));
    assert(ascii_lower(w) =~= w);
}

/// Reading the defaults sets only the names of contexts.
proof fn lemma_set_to_info_keys(m: Map<Seq<char>, LevelFilter>, cs: Seq<LogContext>, k: Seq<char>)
    requires
        set_to_info(m, cs).contains_key(k),
    ensures
        m.contains_key(k) || exists|i: int| 0 <= i < cs.len() && k == context_name(#[trigger] cs[i]),
    decreases cs.len(),
{
    if cs.len() > 0 {
        let m1 = m.insert(context_name(cs[0]), info_level());
        lemma_set_to_info_keys(m1, cs.drop_first(), k);
        if !m1.contains_key(k) {
            let i = choose|i: int| 0 <= i < cs.drop_first().len() && k == context_name(#[trigger] cs.drop_first()[i]);
            assert(cs.drop_first()[i] == cs[i + 1]);
        } else if !m.contains_key(k) {
            assert(k == context_name(cs[0]));
        }
    }
}

/// The default setting reads back as exactly the seven contexts, each at
/// level `Info`.
pub proof fn lemma_default_levels_read_back()
    ensures
        log_settings(info_levels(all_contexts())) == set_to_info(Map::empty(), all_contexts()),
        forall|k: Seq<char>|
            #[trigger] log_settings(info_levels(all_contexts())).contains_key(k) <==> exists|c: LogContext|
                k == context_name(c),
        forall|c: LogContext| #[trigger] log_settings(info_levels(all_contexts()))[context_name(c)] == LevelFilter::Info,
{
    lemma_info_levels_fold(Map::empty(), all_contexts(), false);
    lemma_no_lead(info_levels(all_contexts()));
    lemma_info_level_is_info();
    let got = log_settings(info_levels(all_contexts()));
    assert forall|k: Seq<char>| #[trigger] got.contains_key(k) <==> exists|c: LogContext| k == context_name(c) by {
        if got.contains_key(k) {
            lemma_set_to_info_keys(Map::empty(), all_contexts(), k);
            let i = choose|i: int| 0 <= i < all_contexts().len() && k == context_name(#[trigger] all_contexts()[i]);
            assert(k == context_name(all_contexts()[i]));
        }
        if exists|c: LogContext| k == context_name(c) {
            let c = choose|c: LogContext| k == context_name(c);
            lemma_all_set_to_info(c);
        }
    }
    assert forall|c: LogContext| #[trigger] got[context_name(c)] == LevelFilter::Info by {
        lemma_all_set_to_info(c);
    }
}

} // verus!
