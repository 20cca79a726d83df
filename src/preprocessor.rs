use vstd::prelude::*;
use crate::text::{
    trim, starts_with, split_ws_once, lines_of, join_lines, lines_view, chars_of, string_of,
    trim_exec, starts_with_exec, split_ws_once_exec, lines_exec, push_line,
};

verus! {

/// A `%define NAME VALUE` line, trimmed: its name and its value. The name
/// ends at the first whitespace character after the directive, the value is
/// the rest of the line.
pub open spec fn define_of(t: Seq<char>) -> Option<(Seq<char>, Seq<char>)> {
    if starts_with(t, "%define"@) {
        match split_ws_once(t) {
            Some((_, rest)) => split_ws_once(rest),
            None => None,
        }
    } else {
        None
    }
}

/// The macros that the lines define, in order.
pub open spec fn macros_of(ls: Seq<Seq<char>>) -> Seq<(Seq<char>, Seq<char>)>
    decreases ls.len(),
{
    if ls.len() == 0 {
        Seq::empty()
    } else {
        let m = macros_of(ls.drop_last());
        match define_of(trim(ls.last())) {
            Some(d) => m.push(d),
            None => m,
        }
    }
}

/// The lines, trimmed, but those that then start with `p`.
pub open spec fn kept_lines(ls: Seq<Seq<char>>, p: Seq<char>) -> Seq<Seq<char>>
    decreases ls.len(),
{
    if ls.len() == 0 {
        Seq::empty()
    } else {
        let k = kept_lines(ls.drop_last(), p);
        let t = trim(ls.last());
        if starts_with(t, p) {
            k
        } else {
            k.push(t)
        }
    }
}

/// `name` is not empty and stands in `t` at position `i`.
pub open spec fn name_at(t: Seq<char>, i: int, name: Seq<char>) -> bool {
    name.len() > 0 && 0 <= i && i + name.len() <= t.len() && t.subrange(i, i + name.len()) == name
}

/// The first macro, from the `k`-th on, whose name stands at position `i`.
pub open spec fn first_match(t: Seq<char>, ms: Seq<(Seq<char>, Seq<char>)>, i: int, k: int) -> Option<int>
    decreases ms.len() - k,
{
    if k < 0 || k >= ms.len() {
        None
    } else if name_at(t, i, ms[k].0) {
        Some(k)
    } else {
        first_match(t, ms, i, k + 1)
    }
}

/// The text from position `i` on, with each macro name replaced by its
/// value in one left-to-right pass: a value is never read again for names.
pub open spec fn substitute_from(t: Seq<char>, ms: Seq<(Seq<char>, Seq<char>)>, i: int) -> Seq<char>
    decreases t.len() - i,
{
    if i < 0 || i >= t.len() {
        Seq::empty()
    } else {
        match first_match(t, ms, i, 0) {
            Some(k) => if 0 <= k < ms.len() && name_at(t, i, ms[k].0) {
                ms[k].1 + substitute_from(t, ms, i + ms[k].0.len())
            } else {
                Seq::empty()
            },
            None => seq![t[i]] + substitute_from(t, ms, i + 1),
        }
    }
}

/// What `process_source` makes of a source: directive and comment lines go,
/// the rest is trimmed, and the defined macros are substituted.
pub open spec fn process_source_spec(s: Seq<char>) -> Seq<char> {
    let ls = lines_of(s);
    substitute_from(join_lines(kept_lines(kept_lines(ls, "%"@), ";"@)), macros_of(ls), 0)
}

/// The text between double quotes, all quoted pieces together, read up to
/// the end, and whether the end lies inside quotes.
pub open spec fn quoted_state(s: Seq<char>) -> (bool, Seq<char>)
    decreases s.len(),
{
    if s.len() == 0 {
        (false, Seq::empty())
    } else {
        let (f, a) = quoted_state(s.drop_last());
        let c = s.last();
        if c == '"' {
            (!f, a)
        } else if f {
            (f, a.push(c))
        } else {
            (f, a)
        }
    }
}

pub open spec fn is_include(t: Seq<char>) -> bool {
    starts_with(t, "%include"@)
}

/// The paths that the `%include` lines name, in order.
pub open spec fn include_paths_of(ls: Seq<Seq<char>>) -> Seq<Seq<char>>
    decreases ls.len(),
{
    if ls.len() == 0 {
        Seq::empty()
    } else {
        let p = include_paths_of(ls.drop_last());
        let t = trim(ls.last());
        if is_include(t) {
            p.push(quoted_state(t).1)
        } else {
            p
        }
    }
}

/// The lines with the lines of the `k`-th included text right after the
/// `k`-th `%include` line (none where no text is given).
pub open spec fn splice_lines(ls: Seq<Seq<char>>, contents: Seq<Seq<char>>) -> Seq<Seq<char>>
    decreases ls.len(),
{
    if ls.len() == 0 {
        Seq::empty()
    } else {
        let prev = splice_lines(ls.drop_last(), contents);
        let l = ls.last();
        let k = include_paths_of(ls.drop_last()).len();
        if is_include(trim(l)) && k < contents.len() {
            prev.push(l) + lines_of(contents[k as int])
        } else {
            prev.push(l)
        }
    }
}

/// What `process_includes` makes of a source and the texts of its includes.
pub open spec fn process_includes_spec(s: Seq<char>, contents: Seq<Seq<char>>) -> Seq<char> {
    join_lines(kept_lines(splice_lines(lines_of(s), contents), "%include"@))
}

/// The character sequences of a list of strings.
pub open spec fn texts_view(v: Seq<String>) -> Seq<Seq<char>> {
    v.map_values(|s: String| s@)
}

/// The character sequences of a list of macros.
pub open spec fn macros_view(v: Seq<(Vec<char>, Vec<char>)>) -> Seq<(Seq<char>, Seq<char>)> {
    v.map_values(|m: (Vec<char>, Vec<char>)| (m.0@, m.1@))
}

/// A value put in for a macro name is not read again for names: a text
/// that is exactly one macro's name becomes exactly that macro's value,
/// whatever names the value holds.
pub proof fn law_single_pass(ms: Seq<(Seq<char>, Seq<char>)>, k: int)
    requires
        0 <= k < ms.len(),
        ms[k].0.len() > 0,
        forall|j: int| 0 <= j < k ==> !name_at(ms[k].0, 0, #[trigger] ms[j].0),
    ensures
        substitute_from(ms[k].0, ms, 0) == ms[k].1,
{
    let t = ms[k].0;
    lemma_first_match_at(t, ms, 0, k, 0);
    assert(t.subrange(0, t.len() as int) =~= t);
    assert(substitute_from(t, ms, t.len() as int) == Seq::<char>::empty());
    assert(ms[k].1 + Seq::<char>::empty() =~= ms[k].1);
}

proof fn lemma_first_match_at(t: Seq<char>, ms: Seq<(Seq<char>, Seq<char>)>, i: int, k: int, from: int)
    requires
        0 <= from <= k < ms.len(),
        name_at(t, i, ms[k].0) || (i == 0 && ms[k].0 == t && t.len() > 0),
        forall|j: int| from <= j < k ==> !name_at(t, i, #[trigger] ms[j].0),
    ensures
        first_match(t, ms, i, from) == Some(k),
    decreases k - from,
{
    if i == 0 && ms[k].0 == t {
        assert(t.subrange(0, t.len() as int) =~= t);
    }
    if from < k {
        lemma_first_match_at(t, ms, i, k, from + 1);
    }
}

fn kept_lines_exec(ls: &Vec<Vec<char>>, p: &Vec<char>) -> (r: Vec<Vec<char>>)
    ensures
        lines_view(r@) == kept_lines(lines_view(ls@), p@),
{
    let ghost lv = lines_view(ls@);
    let mut out: Vec<Vec<char>> = Vec::new();
    let mut i: usize = 0;
    while i < ls.len()
        invariant
            i <= ls.len(),
            lv == lines_view(ls@),
            lines_view(out@) == kept_lines(lv.take(i as int), p@),
        decreases ls.len() - i,
    {
        assert(lv.take(i + 1).drop_last() =~= lv.take(i as int));
        let t = trim_exec(&ls[i]);
        if !starts_with_exec(&t, p) {
            let ghost before = lines_view(out@);
            let ghost tv = t@;
            out.push(t);
            assert(lines_view(out@) =~= before.push(tv));
        }
        i += 1;
    }
    assert(lv.take(i as int) =~= lv);
    out
}

fn join_exec(ls: &Vec<Vec<char>>) -> (r: Vec<char>)
    ensures
        r@ == join_lines(lines_view(ls@)),
{
    let ghost lv = lines_view(ls@);
    let mut out: Vec<char> = Vec::new();
    let mut i: usize = 0;
    while i < ls.len()
        invariant
            i <= ls.len(),
            lv == lines_view(ls@),
            out@ == join_lines(lv.take(i as int)),
        decreases ls.len() - i,
    {
        assert(lv.take(i + 1).drop_last() =~= lv.take(i as int));
        push_line(&mut out, &ls[i]);
        i += 1;
    }
    assert(lv.take(i as int) =~= lv);
    out
}

fn name_at_exec(t: &Vec<char>, i: usize, name: &Vec<char>) -> (r: bool)
    ensures
        r == name_at(t@, i as int, name@),
{
    if name.len() == 0 || i > t.len() || t.len() - i < name.len() {
        return false;
    }
    let mut j: usize = 0;
    while j < name.len()
        invariant
            j <= name.len(),
            i + name.len() <= t.len(),
            t@.subrange(i as int, i + j) == name@.take(j as int),
        decreases name.len() - j,
    {
        if t[i + j] != name[j] {
            assert(t@.subrange(i as int, i + name.len())[j as int] != name@[j as int]);
            return false;
        }
        j += 1;
        assert(t@.subrange(i as int, i + j) =~= name@.take(j as int));
    }
    assert(name@.take(j as int) =~= name@);
    true
}

fn first_match_exec(t: &Vec<char>, ms: &Vec<(Vec<char>, Vec<char>)>, i: usize) -> (r: Option<usize>)
    ensures
        match r {
            Some(k) => first_match(t@, macros_view(ms@), i as int, 0) == Some(k as int) && k < ms.len(),
            None => first_match(t@, macros_view(ms@), i as int, 0) is None,
        },
{
    let ghost mv = macros_view(ms@);
    let mut k: usize = 0;
    while k < ms.len()
        invariant
            k <= ms.len(),
            mv == macros_view(ms@),
            first_match(t@, mv, i as int, 0) == first_match(t@, mv, i as int, k as int),
        decreases ms.len() - k,
    {
        if name_at_exec(t, i, &ms[k].0) {
            return Some(k);
        }
        k += 1;
    }
    None
}

/// Replaces each macro name in `t` by its value, in one pass.
fn substitute_exec(t: &Vec<char>, ms: &Vec<(Vec<char>, Vec<char>)>) -> (r: Vec<char>)
    ensures
        r@ == substitute_from(t@, macros_view(ms@), 0),
{
    let ghost mv = macros_view(ms@);
    let mut out: Vec<char> = Vec::new();
    let mut i: usize = 0;
    while i < t.len()
        invariant
            i <= t.len(),
            mv == macros_view(ms@),
            out@ + substitute_from(t@, mv, i as int) == substitute_from(t@, mv, 0),
        decreases t.len() - i,
    {
        match first_match_exec(t, ms, i) {
            Some(k) => {
                let name = &ms[k].0;
                let value = &ms[k].1;
                assert(mv[k as int] == (name@, value@));
                proof {
                    lemma_first_match_found(t@, mv, i as int, 0);
                }
                assert(name@.len() > 0 && i + name@.len() <= t@.len());
                assert(substitute_from(t@, mv, i as int) == value@ + substitute_from(
                    t@,
                    mv,
                    i + name@.len(),
                ));
                let ghost before = out@;
                let mut j: usize = 0;
                while j < value.len()
                    invariant
                        j <= value.len(),
                        out@ == before + value@.take(j as int),
                    decreases value.len() - j,
                {
                    out.push(value[j]);
                    j += 1;
                    assert(out@ =~= before + value@.take(j as int));
                }
                assert(value@.take(j as int) =~= value@);
                assert(before + (value@ + substitute_from(t@, mv, i + name@.len())) =~= out@
                    + substitute_from(t@, mv, i + name@.len()));
                i = i + name.len();
            },
            None => {
                let ghost before = out@;
                out.push(t[i]);
                assert(before + (seq![t@[i as int]] + substitute_from(t@, mv, i + 1)) =~= out@
                    + substitute_from(t@, mv, i + 1));
                i += 1;
            },
        }
    }
    assert(out@ + Seq::<char>::empty() =~= out@);
    out
}

proof fn lemma_first_match_found(t: Seq<char>, ms: Seq<(Seq<char>, Seq<char>)>, i: int, k: int)
    requires
        first_match(t, ms, i, k) is Some,
    ensures
        ({
            let j = first_match(t, ms, i, k)->0;
            0 <= j < ms.len() && name_at(t, i, ms[j].0)
        }),
    decreases ms.len() - k,
{
    if k >= 0 && k < ms.len() && !name_at(t, i, ms[k].0) {
        lemma_first_match_found(t, ms, i, k + 1);
    }
}

fn define_of_exec(t: &Vec<char>, directive: &Vec<char>) -> (r: Option<(Vec<char>, Vec<char>)>)
    requires
        directive@ == "%define"@,
    ensures
        match r {
            Some((a, b)) => define_of(t@) == Some((a@, b@)),
            None => define_of(t@) is None,
        },
{
    if !starts_with_exec(t, directive) {
        return None;
    }
    match split_ws_once_exec(t) {
        None => None,
        Some((_, rest)) => split_ws_once_exec(&rest),
    }
}

fn macros_exec(ls: &Vec<Vec<char>>) -> (r: Vec<(Vec<char>, Vec<char>)>)
    ensures
        macros_view(r@) == macros_of(lines_view(ls@)),
{
    let ghost lv = lines_view(ls@);
    let directive = chars_of("%define");
    let mut out: Vec<(Vec<char>, Vec<char>)> = Vec::new();
    let mut i: usize = 0;
    while i < ls.len()
        invariant
            i <= ls.len(),
            lv == lines_view(ls@),
            directive@ == "%define"@,
            macros_view(out@) == macros_of(lv.take(i as int)),
        decreases ls.len() - i,
    {
        assert(lv.take(i + 1).drop_last() =~= lv.take(i as int));
        let t = trim_exec(&ls[i]);
        match define_of_exec(&t, &directive) {
            Some(d) => {
                let ghost before = macros_view(out@);
                let ghost dv = (d.0@, d.1@);
                out.push(d);
                assert(macros_view(out@) =~= before.push(dv));
            },
            None => {},
        }
        i += 1;
    }
    assert(lv.take(i as int) =~= lv);
    out
}

fn quoted_exec(v: &Vec<char>) -> (r: Vec<char>)
    ensures
        r@ == quoted_state(v@).1,
{
    let mut found = false;
    let mut out: Vec<char> = Vec::new();
    let mut i: usize = 0;
    while i < v.len()
        invariant
            i <= v.len(),
            quoted_state(v@.take(i as int)) == (found, out@),
        decreases v.len() - i,
    {
        assert(v@.take(i + 1).drop_last() =~= v@.take(i as int));
        let c = v[i];
        if c == '"' {
            found = !found;
        } else if found {
            out.push(c);
        }
        i += 1;
    }
    assert(v@.take(i as int) =~= v@);
    out
}

/// The source preprocessor: include splicing, macro substitution, and the
/// removal of directive and comment lines.
pub struct Preprocessor {}

impl Preprocessor {
    /// The source without the lines that, trimmed, start with `starts_with`;
    /// the other lines are trimmed and each ends with a `\n`.
    pub fn remove_line_by_sstr(&self, starts_with: &str, source: String) -> (r: String)
        ensures
            r@ == join_lines(kept_lines(lines_of(source@), starts_with@)),
    {
        let p = chars_of(starts_with);
        let ls = lines_exec(&chars_of(source.as_str()));
        string_of(&join_exec(&kept_lines_exec(&ls, &p)))
    }

    /// The text between double quotes in `line`.
    pub fn get_string(&self, line: &str) -> (r: String)
        ensures
            r@ == quoted_state(line@).1,
    {
        string_of(&quoted_exec(&chars_of(line)))
    }

    /// The paths named by the `%include "PATH"` lines of the source, in order.
    pub fn include_paths(&self, source: &String) -> (r: Vec<String>)
        ensures
            texts_view(r@) == include_paths_of(lines_of(source@)),
    {
        let ls = lines_exec(&chars_of(source.as_str()));
        let ghost lv = lines_view(ls@);
        let directive = chars_of("%include");
        let mut out: Vec<String> = Vec::new();
        let mut i: usize = 0;
        while i < ls.len()
            invariant
                i <= ls.len(),
                lv == lines_view(ls@),
                directive@ == "%include"@,
                texts_view(out@) == include_paths_of(lv.take(i as int)),
            decreases ls.len() - i,
        {
            assert(lv.take(i + 1).drop_last() =~= lv.take(i as int));
            let t = trim_exec(&ls[i]);
            if starts_with_exec(&t, &directive) {
                let ghost before = texts_view(out@);
                let s = string_of(&quoted_exec(&t));
                let ghost sv = s@;
                out.push(s);
                assert(texts_view(out@) =~= before.push(sv));
            }
            i += 1;
        }
        assert(lv.take(i as int) =~= lv);
        out
    }

    /// Splices `contents[k]`, the text of the `k`-th included file, after the
    /// `k`-th `%include` line, then removes the `%include` lines; the lines
    /// come out trimmed, each ending with a `\n`.
    pub fn process_includes(&self, source: String, contents: &Vec<String>) -> (r: String)
        ensures
            r@ == process_includes_spec(source@, texts_view(contents@)),
    {
        let ls = lines_exec(&chars_of(source.as_str()));
        let ghost lv = lines_view(ls@);
        let ghost cv = texts_view(contents@);
        let directive = chars_of("%include");
        let mut out: Vec<Vec<char>> = Vec::new();
        let mut k: usize = 0;
        let mut i: usize = 0;
        while i < ls.len()
            invariant
                i <= ls.len(),
                lv == lines_view(ls@),
                cv == texts_view(contents@),
                directive@ == "%include"@,
                lines_view(out@) == splice_lines(lv.take(i as int), cv),
                k == include_paths_of(lv.take(i as int)).len(),
                k <= i,
            decreases ls.len() - i,
        {
            assert(lv.take(i + 1).drop_last() =~= lv.take(i as int));
            let t = trim_exec(&ls[i]);
            let inc = starts_with_exec(&t, &directive);
            let ghost before = lines_view(out@);
            out.push(slice_line(&ls[i]));
            assert(lines_view(out@) =~= before.push(lv[i as int]));
            if inc {
                if k < contents.len() {
                    let extra = lines_exec(&chars_of(contents[k].as_str()));
                    let mut j: usize = 0;
                    let ghost mid = lines_view(out@);
                    while j < extra.len()
                        invariant
                            j <= extra.len(),
                            lines_view(out@) == mid + lines_view(extra@).take(j as int),
                        decreases extra.len() - j,
                    {
                        let ghost b2 = lines_view(out@);
                        out.push(slice_line(&extra[j]));
                        assert(lines_view(out@) =~= b2.push(lines_view(extra@)[j as int]));
                        assert(lines_view(out@) =~= mid + lines_view(extra@).take(j + 1));
                        j += 1;
                    }
                    assert(lines_view(extra@).take(j as int) =~= lines_view(extra@));
                }
                k += 1;
            }
            i += 1;
        }
        assert(lv.take(i as int) =~= lv);
        let kept = kept_lines_exec(&out, &directive);
        string_of(&join_exec(&kept))
    }

    /// Removes directive lines (`%...`) and comment lines (`;...`), trims the
    /// rest, and replaces each name defined by a `%define NAME VALUE` line
    /// with its value, in one pass.
    pub fn process_source(&self, source: String) -> (r: String)
        ensures
            r@ == process_source_spec(source@),
    {
        let ls = lines_exec(&chars_of(source.as_str()));
        let macros = macros_exec(&ls);
        let k1 = kept_lines_exec(&ls, &chars_of("%"));
        let k2 = kept_lines_exec(&k1, &chars_of(";"));
        let text = join_exec(&k2);
        string_of(&substitute_exec(&text, &macros))
    }
}

fn slice_line(v: &Vec<char>) -> (r: Vec<char>)
    ensures
        r@ == v@,
{
    let mut out: Vec<char> = Vec::new();
    let mut i: usize = 0;
    while i < v.len()
        invariant
            i <= v.len(),
            out@ == v@.take(i as int),
        decreases v.len() - i,
    {
        out.push(v[i]);
        i += 1;
        assert(out@ =~= v@.take(i as int));
    }
    assert(v@.take(i as int) =~= v@);
    out
}

} // verus!
