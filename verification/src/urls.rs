use vstd::prelude::*;

use crate::text::{chars_of, trim, trim_chars, trim_is_idempotent, views};

verus! {

/// Whether a trimmed line names a URL: it is not empty and not a `#` comment.
pub open spec fn is_url_line(t: Seq<char>) -> bool {
    t.len() > 0 && t[0] != '#'
}

/// The URLs of a list of lines, in order: each line trimmed, blank lines and
/// `#` comments left out, and each URL kept only at its first occurrence.
pub open spec fn cleaned_urls(lines: Seq<Seq<char>>) -> Seq<Seq<char>>
    decreases lines.len(),
{
    if lines.len() == 0 {
        Seq::<Seq<char>>::empty()
    } else {
        let prev = cleaned_urls(lines.drop_last());
        let t = trim_chars(lines.last());
        if is_url_line(t) && !prev.contains(t) {
            prev.push(t)
        } else {
            prev
        }
    }
}

/// Whether `s` occurs in `v`.
fn contains_string(v: &Vec<String>, s: &String) -> (res: bool)
    ensures
        res == views(v@).contains(s@),
{
    let mut i: usize = 0;
    while i < v.len()
        invariant
            i <= v@.len(),
            forall|j: int| 0 <= j < i ==> v@[j]@ != s@,
        decreases v@.len() - i,
    {
        if v[i] == *s {
            assert(views(v@)[i as int] == s@);
            return true;
        }
        i = i + 1;
    }
    assert forall|j: int| 0 <= j < views(v@).len() implies views(v@)[j] != s@ by {
        assert(views(v@)[j] == v@[j]@);
    }
    false
}

/// The URLs listed in the lines of a URL file: trimmed, without blank
/// lines, `#` comments and repeats.
pub fn clean_urls(lines: &Vec<String>) -> (res: Vec<String>)
    ensures
        views(res@) == cleaned_urls(views(lines@)),
{
    let mut res: Vec<String> = Vec::new();
    let mut i: usize = 0;
    while i < lines.len()
        invariant
            i <= lines@.len(),
            views(res@) == cleaned_urls(views(lines@).take(i as int)),
        decreases lines@.len() - i,
    {
        let ghost before = views(res@);
        assert(views(lines@).take(i + 1).drop_last() =~= views(lines@).take(i as int));
        assert(views(lines@).take(i + 1).last() == lines@[i as int]@);
        let t = trim(lines[i].as_str());
        let tc = chars_of(t.as_str());
        if tc.len() > 0 && tc[0] != '#' && !contains_string(&res, &t) {
            res.push(t);
            assert(views(res@) =~= before.push(t@));
        }
        i = i + 1;
    }
    assert(views(lines@).take(lines@.len() as int) =~= views(lines@));
    res
}

/// Every URL in the cleaned list is trimmed.
pub proof fn cleaned_urls_are_trimmed(lines: Seq<Seq<char>>)
    ensures
        forall|i: int|
            0 <= i < cleaned_urls(lines).len() ==> trim_chars(#[trigger] cleaned_urls(lines)[i])
                == cleaned_urls(lines)[i],
    decreases lines.len(),
{
    if lines.len() > 0 {
        cleaned_urls_are_trimmed(lines.drop_last());
        trim_is_idempotent(lines.last());
        let prev = cleaned_urls(lines.drop_last());
        let c = cleaned_urls(lines);
        assert forall|i: int| 0 <= i < c.len() implies trim_chars(#[trigger] c[i]) == c[i] by {
            if i < prev.len() {
                assert(c[i] == prev[i]);
            }
        }
    }
}

/// No URL occurs twice in the cleaned list.
pub proof fn cleaned_urls_are_distinct(lines: Seq<Seq<char>>)
    ensures
        forall|i: int, j: int|
            0 <= i < j < cleaned_urls(lines).len() ==> cleaned_urls(lines)[i] != cleaned_urls(
                lines,
            )[j],
    decreases lines.len(),
{
    if lines.len() > 0 {
        cleaned_urls_are_distinct(lines.drop_last());
        let prev = cleaned_urls(lines.drop_last());
        let t = trim_chars(lines.last());
        if is_url_line(t) && !prev.contains(t) {
            let c = cleaned_urls(lines);
            assert forall|i: int, j: int| 0 <= i < j < c.len() implies c[i] != c[j] by {
                if j == c.len() - 1 {
                    assert(c[i] == prev[i]);
                    if c[i] == c[j] {
                        assert(prev.contains(t));
                    }
                } else {
                    assert(c[i] == prev[i] && c[j] == prev[j]);
                }
            }
        }
    }
}

/// The cleaned list holds exactly the trimmed lines that are not empty and
/// do not start with `#`.
pub proof fn cleaned_urls_are_the_url_lines(lines: Seq<Seq<char>>)
    ensures
        forall|u: Seq<char>|
            #![trigger cleaned_urls(lines).contains(u)]
            cleaned_urls(lines).contains(u) <==> (u.len() > 0 && u[0] != '#') && exists|k: int|
                0 <= k < lines.len() && #[trigger] trim_chars(lines[k]) == u,
    decreases lines.len(),
{
    if lines.len() > 0 {
        let init = lines.drop_last();
        cleaned_urls_are_the_url_lines(init);
        let prev = cleaned_urls(init);
        let t = trim_chars(lines.last());
        let c = cleaned_urls(lines);
        assert forall|u: Seq<char>|
            c.contains(u) <==> (u.len() > 0 && u[0] != '#') && exists|k: int|
                0 <= k < lines.len() && #[trigger] trim_chars(lines[k]) == u by {
            if c.contains(u) {
                if prev.contains(u) {
                    let k = choose|k: int| 0 <= k < init.len() && #[trigger] trim_chars(init[k]) == u;
                    assert(trim_chars(lines[k]) == u);
                } else {
                    let m = choose|m: int| 0 <= m < c.len() && c[m] == u;
                    if m < prev.len() {
                        assert(prev[m] == u);
                    }
                    assert(trim_chars(lines[lines.len() - 1]) == u);
                }
            }
            if (u.len() > 0 && u[0] != '#') && exists|k: int| 0 <= k < lines.len() && #[trigger] trim_chars(lines[k]) == u {
                let k = choose|k: int| 0 <= k < lines.len() && #[trigger] trim_chars(lines[k]) == u;
                if k < init.len() {
                    assert(trim_chars(init[k]) == u);
                    assert(prev.contains(u));
                    let m = choose|m: int| 0 <= m < prev.len() && prev[m] == u;
                    assert(c[m] == u);
                } else {
                    if prev.contains(u) {
                        let m = choose|m: int| 0 <= m < prev.len() && prev[m] == u;
                        assert(c[m] == u);
                    } else {
                        assert(c[c.len() - 1] == u);
                    }
                }
            }
        }
    }
}

} // verus!
