//! The plugin marketplace's preview of a candidate profile against the
//! active one: which dependencies it adds and removes, and a minimal line
//! diff of the profile's patch file.
use vstd::prelude::*;

use crate::json::{JsonValue};
use crate::strmap::StrMap;
use crate::text::{append_str, chars_of, occurs_in, push_char, str_eq, string_of_range};

use crate::jsontext::{json_text_value, parse_json};

verus! {

broadcast use vstd::string::group_string_axioms;

/// What a candidate profile changes.
#[derive(Debug)]
pub struct PluginPreview {
    pub added: Vec<String>,
    pub removed: Vec<String>,
    pub patch_diff: String,
}

/// The index of the first `\n` in `s`.
pub open spec fn first_newline(s: Seq<char>) -> Option<int>
    decreases s.len(),
{
    if s.len() == 0 {
        None
    } else if s[0] == '\n' {
        Some(0)
    } else {
        match first_newline(s.drop_first()) {
            Some(i) => Some(i + 1),
            None => None,
        }
    }
}

/// A line without the `\r` of a `\r\n` ending.
pub open spec fn strip_cr(line: Seq<char>) -> Seq<char> {
    if line.len() > 0 && line.last() == '\r' {
        line.drop_last()
    } else {
        line
    }
}

/// The lines of a text as `str::lines` yields them: split at `\n` (a `\r`
/// before it is dropped), without an empty line after a final line ending.
pub open spec fn text_lines(s: Seq<char>) -> Seq<Seq<char>>
    decreases s.len(),
{
    if s.len() == 0 {
        Seq::empty()
    } else {
        match first_newline(s) {
            Some(i) => if 0 <= i < s.len() {
                seq![strip_cr(s.take(i))] + text_lines(s.skip(i + 1))
            } else {
                Seq::empty()
            },
            None => seq![s],
        }
    }
}

/// The lines of `lines` missing from `other`, each written after `mark`
/// and ended by a newline.
pub open spec fn marked_lines(mark: Seq<char>, lines: Seq<Seq<char>>, other: Seq<Seq<char>>) -> Seq<
    char,
>
    decreases lines.len(),
{
    if lines.len() == 0 {
        Seq::empty()
    } else {
        marked_lines(mark, lines.drop_last(), other) + if other.contains(lines.last()) {
            Seq::empty()
        } else {
            mark + lines.last() + seq!['\n']
        }
    }
}

/// The diff of two texts: a notice when they are equal, else the lines
/// only in `b` marked `+ `, then the lines only in `a` marked `- `.
pub open spec fn line_diff(a: Seq<char>, b: Seq<char>) -> Seq<char> {
    if a == b {
        "(无变化)"@
    } else {
        marked_lines("+ "@, text_lines(b), text_lines(a)) + marked_lines(
            "- "@,
            text_lines(a),
            text_lines(b),
        )
    }
}

/// Each line of `lines` that `other` lacks appears marked, and nothing
/// else is written.
proof fn lemma_marked_lines(mark: Seq<char>, lines: Seq<Seq<char>>, other: Seq<Seq<char>>, k: int)
    requires
        0 <= k < lines.len(),
        !other.contains(lines[k]),
    ensures
        occurs_in(mark + lines[k] + seq!['\n'], marked_lines(mark, lines, other)),
    decreases lines.len(),
{
    let entry = mark + lines[k] + seq!['\n'];
    let rest = marked_lines(mark, lines.drop_last(), other);
    let all = marked_lines(mark, lines, other);
    if k == lines.len() - 1 {
        assert(all =~= rest + entry);
        assert(all.subrange(rest.len() as int, (rest.len() + entry.len()) as int) =~= entry);
    } else {
        assert(lines.drop_last()[k] == lines[k]);
        lemma_marked_lines(mark, lines.drop_last(), other, k);
        let i = choose|i: int|
            0 <= i && i + entry.len() <= rest.len() && #[trigger] rest.subrange(i, i + entry.len()) == entry;
        let tail = if other.contains(lines.last()) {
            Seq::<char>::empty()
        } else {
            mark + lines.last() + seq!['\n']
        };
        assert(all =~= rest + tail);
        assert(all.subrange(i, i + entry.len()) =~= rest.subrange(i, i + entry.len()));
    }
}

/// The diff of two equal texts is the notice "(无变化)". Of two different
/// texts, every line only in the new text appears as `+ line`, and every
/// line only in the old text as `- line`, each on a line of its own.
pub proof fn law_diff_marks_changed_lines(a: Seq<char>, b: Seq<char>)
    ensures
        a == b ==> line_diff(a, b) == "(无变化)"@,
        a != b ==> forall|k: int|
            0 <= k < text_lines(b).len() && !text_lines(a).contains(#[trigger] text_lines(b)[k])
                ==> occurs_in("+ "@ + text_lines(b)[k] + seq!['\n'], line_diff(a, b)),
        a != b ==> forall|k: int|
            0 <= k < text_lines(a).len() && !text_lines(b).contains(#[trigger] text_lines(a)[k])
                ==> occurs_in("- "@ + text_lines(a)[k] + seq!['\n'], line_diff(a, b)),
{
    if a != b {
        let plus = marked_lines("+ "@, text_lines(b), text_lines(a));
        let minus = marked_lines("- "@, text_lines(a), text_lines(b));
        assert forall|k: int|
            0 <= k < text_lines(b).len() && !text_lines(a).contains(#[trigger] text_lines(b)[k])
                implies occurs_in("+ "@ + text_lines(b)[k] + seq!['\n'], line_diff(a, b)) by {
            let e = "+ "@ + text_lines(b)[k] + seq!['\n'];
            lemma_marked_lines("+ "@, text_lines(b), text_lines(a), k);
            let i = choose|i: int| 0 <= i && i + e.len() <= plus.len() && #[trigger] plus.subrange(i, i + e.len()) == e;
            assert((plus + minus).subrange(i, i + e.len()) =~= plus.subrange(i, i + e.len()));
        }
        assert forall|k: int|
            0 <= k < text_lines(a).len() && !text_lines(b).contains(#[trigger] text_lines(a)[k])
                implies occurs_in("- "@ + text_lines(a)[k] + seq!['\n'], line_diff(a, b)) by {
            let e = "- "@ + text_lines(a)[k] + seq!['\n'];
            lemma_marked_lines("- "@, text_lines(a), text_lines(b), k);
            let i = choose|i: int| 0 <= i && i + e.len() <= minus.len() && #[trigger] minus.subrange(i, i + e.len()) == e;
            assert((plus + minus).subrange(plus.len() + i, plus.len() + i + e.len()) =~= minus.subrange(i, i + e.len()));
        }
    }
}

/// The position of the first `\n` at or after `from`.
fn find_newline(cs: &Vec<char>, from: usize) -> (r: Option<usize>)
    requires
        from <= cs@.len(),
    ensures
        match r {
            Some(i) => from <= i < cs@.len() && first_newline(cs@.skip(from as int)) == Some(
                i - from,
            ),
            None => first_newline(cs@.skip(from as int)) is None,
        },
    decreases cs@.len() - from,
{
    if from == cs.len() {
        return None;
    }
    assert(cs@.skip(from as int)[0] == cs@[from as int]);
    assert(cs@.skip(from as int).drop_first() =~= cs@.skip(from + 1));
    if cs[from] == '\n' {
        Some(from)
    } else {
        find_newline(cs, from + 1)
    }
}

/// The lines of a text (`str::lines`).
pub fn lines_of(s: &str) -> (out: Vec<String>)
    ensures
        out@.map_values(|l: String| l@) == text_lines(s@),
{
    let cs = chars_of(s);
    let mut out: Vec<String> = Vec::new();
    let mut pos: usize = 0;
    assert(cs@.skip(0) =~= cs@);
    assert(out@.map_values(|l: String| l@) + text_lines(cs@) =~= text_lines(cs@));
    while pos < cs.len()
        invariant
            pos <= cs@.len(),
            cs@ == s@,
            out@.map_values(|l: String| l@) + text_lines(cs@.skip(pos as int)) == text_lines(s@),
        decreases cs@.len() - pos,
    {
        let ghost rest = cs@.skip(pos as int);
        match find_newline(&cs, pos) {
            Some(nl) => {
                let end = if nl > pos && cs[nl - 1] == '\r' {
                    nl - 1
                } else {
                    nl
                };
                let line = string_of_range(&cs, pos, end);
                proof {
                    let i = nl - pos;
                    assert(rest.take(i as int) =~= cs@.subrange(pos as int, nl as int));
                    assert(rest.skip(i + 1) =~= cs@.skip(nl + 1));
                    if nl > pos && cs@[nl - 1] == '\r' {
                        assert(strip_cr(rest.take(i as int)) =~= cs@.subrange(pos as int, end as int));
                    } else {
                        assert(strip_cr(rest.take(i as int)) =~= cs@.subrange(pos as int, end as int));
                    }
                    assert(text_lines(rest) == seq![strip_cr(rest.take(i as int))] + text_lines(
                        rest.skip(i + 1),
                    ));
                }
                let ghost before = out@;
                out.push(line);
                proof {
                    assert(out@.map_values(|l: String| l@) =~= before.map_values(|l: String| l@).push(
                        line@,
                    ));
                    assert(out@.map_values(|l: String| l@) + text_lines(cs@.skip((nl + 1) as int))
                        =~= before.map_values(|l: String| l@) + text_lines(rest));
                }
                pos = nl + 1;
            },
            None => {
                let line = string_of_range(&cs, pos, cs.len());
                proof {
                    assert(cs@.subrange(pos as int, cs@.len() as int) =~= rest);
                    assert(text_lines(rest) == seq![rest]);
                }
                let ghost before = out@;
                out.push(line);
                proof {
                    assert(cs@.skip(cs@.len() as int) =~= Seq::<char>::empty());
                    assert(out@.map_values(|l: String| l@) + text_lines(cs@.skip(cs@.len() as int))
                        =~= before.map_values(|l: String| l@) + text_lines(rest));
                }
                pos = cs.len();
            },
        }
    }
    proof {
        assert(cs@.skip(pos as int) =~= Seq::<char>::empty());
        assert(out@.map_values(|l: String| l@) + Seq::<Seq<char>>::empty() =~= out@.map_values(
            |l: String| l@,
        ));
    }
    out
}

/// Whether `line` is one of `lines`.
fn has_line(lines: &Vec<String>, line: &str) -> (r: bool)
    ensures
        r == lines@.map_values(|l: String| l@).contains(line@),
{
    let ghost view = lines@.map_values(|l: String| l@);
    let mut i: usize = 0;
    while i < lines.len()
        invariant
            i <= lines@.len(),
            view == lines@.map_values(|l: String| l@),
            forall|j: int| 0 <= j < i ==> view[j] != line@,
        decreases lines.len() - i,
    {
        if str_eq(lines[i].as_str(), line) {
            assert(view[i as int] == line@);
            return true;
        }
        i = i + 1;
    }
    false
}

/// Appends the lines of `lines` missing from `other`, marked.
fn append_marked(out: &mut String, mark: &str, lines: &Vec<String>, other: &Vec<String>)
    ensures
        final(out)@ == old(out)@ + marked_lines(
            mark@,
            lines@.map_values(|l: String| l@),
            other@.map_values(|l: String| l@),
        ),
{
    let ghost lv = lines@.map_values(|l: String| l@);
    let ghost ov = other@.map_values(|l: String| l@);
    let ghost start = out@;
    let mut i: usize = 0;
    while i < lines.len()
        invariant
            i <= lines@.len(),
            lv == lines@.map_values(|l: String| l@),
            ov == other@.map_values(|l: String| l@),
            out@ == start + marked_lines(mark@, lv.take(i as int), ov),
        decreases lines.len() - i,
    {
        assert(lv.take((i + 1) as int).drop_last() =~= lv.take(i as int));
        assert(lv.take((i + 1) as int).last() == lines@[i as int]@);
        let ghost before = out@;
        if !has_line(other, lines[i].as_str()) {
            append_str(out, mark);
            append_str(out, lines[i].as_str());
            push_char(out, '\n');
            assert(out@ =~= before + (mark@ + lines@[i as int]@ + seq!['\n']));
        } else {
            assert(out@ =~= before + Seq::<char>::empty());
        }
        i = i + 1;
    }
    assert(lv.take(lv.len() as int) =~= lv);
}

/// A minimal line diff of two texts: `+ ` lines only in `b`, then `- `
/// lines only in `a`; a notice when the texts are equal.
pub fn diff_text(a: &str, b: &str) -> (r: String)
    ensures
        r@ == line_diff(a@, b@),
{
    if str_eq(a, b) {
        return "(无变化)".to_string();
    }
    let la = lines_of(a);
    let lb = lines_of(b);
    let mut out = String::new();
    append_marked(&mut out, "+ ", &lb, &la);
    append_marked(&mut out, "- ", &la, &lb);
    out
}

/// The dependency map of a `package.json` document: each member of its
/// `dependencies` object, with its version range (empty when not a string).
pub open spec fn dependency_pairs(pairs: Seq<(Seq<char>, JsonValue)>) -> Map<Seq<char>, Seq<char>>
    decreases pairs.len(),
{
    if pairs.len() == 0 {
        Map::empty()
    } else {
        dependency_pairs(pairs.drop_last()).insert(
            pairs.last().0,
            match pairs.last().1.str_value() {
                Some(v) => v,
                None => Seq::empty(),
            },
        )
    }
}

/// The dependencies a `package.json` document declares.
pub open spec fn dependencies_in(doc: JsonValue) -> Map<Seq<char>, Seq<char>> {
    match doc.field("dependencies"@) {
        Some(JsonValue::Object(m)) => dependency_pairs(m.pairs()),
        _ => Map::empty(),
    }
}

/// The character view of a map of strings.
pub open spec fn string_map(m: Map<Seq<char>, String>) -> Map<Seq<char>, Seq<char>> {
    m.map_values(|s: String| s@)
}

/// Reads the dependencies a `package.json` document declares.
pub fn read_deps(doc: &JsonValue) -> (deps: StrMap<String>)
    ensures
        deps.wf(),
        string_map(deps.view()) == dependencies_in(*doc),
{
    let mut deps: StrMap<String> = StrMap::new();
    match doc.get("dependencies") {
        Some(d) => match d {
            JsonValue::Object(members) => {
                let pairs = members.pair_refs();
                let ghost ps = members.pairs();
                let mut i: usize = 0;
                while i < pairs.len()
                    invariant
                        i <= pairs@.len(),
                        pairs@.len() == ps.len(),
                        forall|j: int|
                            0 <= j < pairs@.len() ==> (#[trigger] pairs@[j]).0@ == ps[j].0
                                && *pairs@[j].1 == ps[j].1,
                        deps.wf(),
                        string_map(deps.view()) == dependency_pairs(ps.take(i as int)),
                    decreases pairs.len() - i,
                {
                    assert(ps.take((i + 1) as int).drop_last() =~= ps.take(i as int));
                    let (k, v) = pairs[i];
                    let value = match v {
                        JsonValue::Str(s) => s.clone(),
                        _ => String::new(),
                    };
                    let ghost gv = value;
                    let ghost before = deps.view();
                    deps.insert(k.clone(), value);
                    assert(string_map(deps.view()) =~= string_map(before).insert(k@, gv@));
                    i = i + 1;
                }
                assert(ps.take(ps.len() as int) =~= ps);
                assert(doc.field("dependencies"@) == Some(JsonValue::Object(*members)));
            },
            _ => {},
        },
        None => {},
    }
    deps
}

/// `name@range` for each of `keys` that `other` lacks, in order.
pub open spec fn changed_entries(
    keys: Seq<Seq<char>>,
    deps: Map<Seq<char>, Seq<char>>,
    other: Set<Seq<char>>,
) -> Seq<Seq<char>>
    decreases keys.len(),
{
    if keys.len() == 0 {
        Seq::empty()
    } else if other.contains(keys.last()) {
        changed_entries(keys.drop_last(), deps, other)
    } else {
        changed_entries(keys.drop_last(), deps, other).push(keys.last() + "@"@ + deps[keys.last()])
    }
}

/// The entries added or removed are exactly the keys that the other profile
/// lacks, each written `name@range` with its own range, in the keys' order.
pub proof fn law_changed_entries_name_and_range(
    keys: Seq<Seq<char>>,
    deps: Map<Seq<char>, Seq<char>>,
    other: Set<Seq<char>>,
)
    ensures
        forall|i: int|
            #![trigger changed_entries(keys, deps, other)[i]]
            0 <= i < changed_entries(keys, deps, other).len() ==> exists|j: int|
                0 <= j < keys.len() && !other.contains(#[trigger] keys[j])
                    && changed_entries(keys, deps, other)[i] == keys[j] + "@"@ + deps[keys[j]],
        forall|j: int|
            0 <= j < keys.len() && !other.contains(#[trigger] keys[j]) ==> changed_entries(
                keys,
                deps,
                other,
            ).contains(keys[j] + "@"@ + deps[keys[j]]),
    decreases keys.len(),
{
    if keys.len() > 0 {
        let rest = keys.drop_last();
        law_changed_entries_name_and_range(rest, deps, other);
        let c = changed_entries(keys, deps, other);
        let cr = changed_entries(rest, deps, other);
        assert forall|i: int|
            #![trigger c[i]]
            0 <= i < c.len() implies exists|j: int|
                0 <= j < keys.len() && !other.contains(#[trigger] keys[j]) && c[i] == keys[j] + "@"@
                    + deps[keys[j]] by {
            if i < cr.len() {
                assert(c[i] == cr[i]);
                let j = choose|j: int|
                    0 <= j < rest.len() && !other.contains(#[trigger] rest[j]) && cr[i] == rest[j]
                        + "@"@ + deps[rest[j]];
                assert(keys[j] == rest[j]);
            } else {
                assert(keys[keys.len() - 1] == keys.last());
            }
        }
        assert forall|j: int| 0 <= j < keys.len() && !other.contains(#[trigger] keys[j]) implies c.contains(
            keys[j] + "@"@ + deps[keys[j]],
        ) by {
            if j < rest.len() {
                assert(rest[j] == keys[j]);
                let e = keys[j] + "@"@ + deps[keys[j]];
                assert(cr.contains(e));
                let i = choose|i: int| 0 <= i < cr.len() && cr[i] == e;
                if !other.contains(keys.last()) {
                    assert(c[i] == cr[i]);
                }
            } else {
                assert(keys[j] == keys.last());
                assert(c[c.len() - 1] == keys[j] + "@"@ + deps[keys[j]]);
            }
        }
    }
}

/// The entries of `deps` missing from `other`, as `name@range`, in name order.
fn missing_entries(deps: &StrMap<String>, other: &StrMap<String>) -> (r: Vec<String>)
    requires
        deps.wf(),
        other.wf(),
    ensures
        r@.map_values(|s: String| s@) == changed_entries(
            deps.key_seq(),
            string_map(deps.view()),
            other.view().dom(),
        ),
{
    let keys = deps.keys();
    proof {
        deps.lemma_keys();
    }
    let ghost ks = deps.key_seq();
    let mut out: Vec<String> = Vec::new();
    let mut i: usize = 0;
    while i < keys.len()
        invariant
            deps.wf(),
            other.wf(),
            i <= keys@.len(),
            keys@.map_values(|k: String| k@) == ks,
            ks == deps.key_seq(),
            forall|k: Seq<char>| deps.view().contains_key(k) <==> ks.contains(k),
            out@.map_values(|s: String| s@) == changed_entries(
                ks.take(i as int),
                string_map(deps.view()),
                other.view().dom(),
            ),
        decreases keys.len() - i,
    {
        assert(keys@.map_values(|k: String| k@)[i as int] == keys@[i as int]@);
        assert(ks.take((i + 1) as int).drop_last() =~= ks.take(i as int));
        assert(ks.take((i + 1) as int).last() == keys@[i as int]@);
        assert(ks.contains(keys@[i as int]@));
        if !other.contains_key(keys[i].as_str()) {
            let value = deps.get(keys[i].as_str()).unwrap();
            let mut entry = keys[i].clone();
            append_str(&mut entry, "@");
            append_str(&mut entry, value.as_str());
            let ghost before = out@;
            out.push(entry);
            assert(out@.map_values(|s: String| s@) =~= before.map_values(|s: String| s@).push(
                entry@,
            ));
        }
        i = i + 1;
    }
    assert(ks.take(ks.len() as int) =~= ks);
    out
}

/// The preview of a candidate profile: dependencies it adds and removes
/// (as `name@range`, in name order) and the diff of its patch file.
pub fn plugin_preview(
    active_deps: &StrMap<String>,
    candidate_deps: &StrMap<String>,
    active_patch: &str,
    candidate_patch: &str,
) -> (r: PluginPreview)
    requires
        active_deps.wf(),
        candidate_deps.wf(),
    ensures
        r.added@.map_values(|s: String| s@) == changed_entries(
            candidate_deps.key_seq(),
            string_map(candidate_deps.view()),
            active_deps.view().dom(),
        ),
        r.removed@.map_values(|s: String| s@) == changed_entries(
            active_deps.key_seq(),
            string_map(active_deps.view()),
            candidate_deps.view().dom(),
        ),
        r.patch_diff@ == line_diff(active_patch@, candidate_patch@),
{
    PluginPreview {
        added: missing_entries(candidate_deps, active_deps),
        removed: missing_entries(active_deps, candidate_deps),
        patch_diff: diff_text(active_patch, candidate_patch),
    }
}

/// The dependencies a `package.json` text declares; the parser's message
/// when the text is not JSON.
pub fn profile_deps_of(text: &str) -> (r: Result<StrMap<String>, String>)
    ensures
        match json_text_value(text@) {
            Some(v) => r is Ok && r->Ok_0.wf() && string_map(r->Ok_0.view()) == dependencies_in(v),
            None => r is Err,
        },
{
    let json = parse_json(text)?;
    Ok(read_deps(&json))
}

} // verus!
