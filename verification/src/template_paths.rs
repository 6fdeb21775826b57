//! How templates name the templates they include: names relative to the
//! including template's file are joined to its directory and normalized.
//!
//! Paths are read as on Unix: `/` separates components, a leading `/`
//! makes a path absolute, `.` components are dropped and `..` removes the
//! component before it.
use vstd::prelude::*;

use crate::template::texts;
use crate::text::{chars_of, has_prefix, str_starts_with, string_of};
use crate::whitespace::str_eq;

verus! {

/// A finished component: dropped when empty or `.`.
pub open spec fn finish_component(cur: Seq<char>) -> Seq<Seq<char>> {
    if cur.len() == 0 || cur == "."@ {
        Seq::empty()
    } else {
        seq![cur]
    }
}

/// The components of `p` from `i` on, `cur` being the part of the current
/// component read so far.
pub open spec fn components_from(p: Seq<char>, i: int, cur: Seq<char>) -> Seq<Seq<char>>
    decreases p.len() - i,
{
    if i < 0 || i >= p.len() {
        finish_component(cur)
    } else if p[i] == '/' {
        finish_component(cur) + components_from(p, i + 1, Seq::empty())
    } else {
        components_from(p, i + 1, cur.push(p[i]))
    }
}

/// The components of a path: its `/`-separated parts that are neither
/// empty nor `.`.
pub open spec fn components(p: Seq<char>) -> Seq<Seq<char>> {
    components_from(p, 0, Seq::empty())
}

/// The components left after `..` removes the one before it (or nothing,
/// at the start).
pub open spec fn resolve_components(cs: Seq<Seq<char>>) -> Seq<Seq<char>>
    decreases cs.len(),
{
    if cs.len() == 0 {
        Seq::empty()
    } else {
        let acc = resolve_components(cs.drop_last());
        if cs.last() == ".."@ {
            if acc.len() > 0 {
                acc.drop_last()
            } else {
                acc
            }
        } else {
            acc.push(cs.last())
        }
    }
}

/// Components joined with `/`.
pub open spec fn join_components(cs: Seq<Seq<char>>) -> Seq<char>
    decreases cs.len(),
{
    if cs.len() == 0 {
        Seq::empty()
    } else if cs.len() == 1 {
        cs[0]
    } else {
        join_components(cs.drop_last()) + "/"@ + cs.last()
    }
}

/// The text of a path made of `cs`, absolute or not.
pub open spec fn path_text(absolute: bool, cs: Seq<Seq<char>>) -> Seq<char> {
    if absolute {
        "/"@ + join_components(cs)
    } else {
        join_components(cs)
    }
}

/// A path with `.` dropped and `..` applied.
pub open spec fn normalized_path(p: Seq<char>) -> Seq<char> {
    path_text(has_prefix(p, "/"@), resolve_components(components(p)))
}

/// Every component but the last.
pub open spec fn all_but_last(cs: Seq<Seq<char>>) -> Seq<Seq<char>> {
    if cs.len() > 0 {
        cs.drop_last()
    } else {
        cs
    }
}

/// The name under which a template included as `name` from the template
/// `parent` is looked up: as given when it is registered or absolute, or
/// when `parent` has no directory; otherwise joined to the directory of
/// `parent` and normalized.
pub open spec fn joined_template_name(
    name: Seq<char>,
    parent: Seq<char>,
    registered: Seq<Seq<char>>,
) -> Seq<char> {
    if registered.contains(name) || has_prefix(name, "/"@) {
        name
    } else if has_prefix(parent, "/"@) {
        path_text(true, resolve_components(all_but_last(components(parent)) + components(name)))
    } else if parent.contains('/') || parent.contains('\\') {
        path_text(false, resolve_components(all_but_last(components(parent)) + components(name)))
    } else {
        name
    }
}

fn component_texts(p: &str) -> (r: Vec<String>)
    ensures
        texts(r@) == components(p@),
{
    let v = chars_of(p);
    let mut out: Vec<String> = Vec::new();
    let mut cur: Vec<char> = Vec::new();
    let mut i: usize = 0;
    proof {
        reveal_strlit(".");
    }
    assert(texts(out@) + components_from(v@, 0, cur@) =~= components(p@));
    while i < v.len()
        invariant
            0 <= i <= v@.len(),
            v@ == p@,
            "."@ == seq!['.'],
            texts(out@) + components_from(v@, i as int, cur@) == components(p@),
        decreases v@.len() - i,
    {
        if v[i] == '/' {
            let ghost before = texts(out@);
            let ghost c = cur@;
            if cur.len() > 0 && !(cur.len() == 1 && cur[0] == '.') {
                out.push(string_of(&cur));
                proof {
                    assert(c != "."@ ==> finish_component(c) == seq![c]);
                    if c == "."@ {
                        assert(c[0] == '.' && c.len() == 1);
                    }
                    assert(texts(out@) =~= before + finish_component(c));
                }
            } else {
                proof {
                    if c.len() > 0 {
                        assert(c =~= "."@);
                    }
                    assert(texts(out@) =~= before + finish_component(c));
                }
            }
            cur = Vec::new();
            proof {
                assert(texts(out@) + components_from(v@, i + 1, cur@) =~= before + (
                finish_component(c) + components_from(v@, i + 1, Seq::empty())));
            }
        } else {
            cur.push(v[i]);
        }
        i += 1;
    }
    let ghost before = texts(out@);
    let ghost c = cur@;
    if cur.len() > 0 && !(cur.len() == 1 && cur[0] == '.') {
        out.push(string_of(&cur));
        proof {
            if c == "."@ {
                assert(c[0] == '.' && c.len() == 1);
            }
        }
    } else {
        proof {
            if c.len() > 0 {
                assert(c =~= "."@);
            }
        }
    }
    assert(texts(out@) =~= before + finish_component(c));
    out
}

fn resolve_parts(cs: Vec<String>) -> (r: Vec<String>)
    ensures
        texts(r@) == resolve_components(texts(cs@)),
{
    let mut acc: Vec<String> = Vec::new();
    let mut i: usize = 0;
    proof {
        reveal_strlit("..");
    }
    assert(texts(acc@) =~= resolve_components(texts(cs@.subrange(0, 0))));
    while i < cs.len()
        invariant
            0 <= i <= cs@.len(),
            texts(acc@) == resolve_components(texts(cs@.subrange(0, i as int))),
        decreases cs@.len() - i,
    {
        proof {
            let p = texts(cs@.subrange(0, i + 1));
            assert(p.drop_last() =~= texts(cs@.subrange(0, i as int)));
            assert(p.last() == cs@[i as int]@);
        }
        let ghost before = texts(acc@);
        if str_eq(cs[i].as_str(), "..") {
            if acc.len() > 0 {
                let _ = acc.pop();
                assert(texts(acc@) =~= before.drop_last());
            }
        } else {
            acc.push(cs[i].clone());
            assert(texts(acc@) =~= before.push(cs@[i as int]@));
        }
        i += 1;
    }
    assert(cs@.subrange(0, cs@.len() as int) =~= cs@);
    acc
}

fn text_of_path(absolute: bool, cs: &Vec<String>) -> (r: String)
    ensures
        r@ == path_text(absolute, texts(cs@)),
{
    let mut out = if absolute { "/".to_owned() } else { String::new() };
    let ghost start = out@;
    let mut i: usize = 0;
    proof {
        reveal_strlit("/");
    }
    assert(join_components(texts(cs@.subrange(0, 0))) =~= Seq::<char>::empty());
    while i < cs.len()
        invariant
            0 <= i <= cs@.len(),
            out@ == start + join_components(texts(cs@.subrange(0, i as int))),
        decreases cs@.len() - i,
    {
        proof {
            let p = texts(cs@.subrange(0, i + 1));
            assert(p.drop_last() =~= texts(cs@.subrange(0, i as int)));
            assert(p.last() == cs@[i as int]@);
            if i == 0 {
                assert(p.len() == 1);
            }
        }
        let ghost before = out@;
        if i > 0 {
            out.append("/");
        }
        out.append(cs[i].as_str());
        proof {
            if i == 0 {
                assert(texts(cs@.subrange(0, 1))[0] == cs@[0]@);
                assert(out@ =~= start + join_components(texts(cs@.subrange(0, 1))));
            } else {
                assert(out@ =~= start + join_components(texts(cs@.subrange(0, i + 1))));
            }
        }
        i += 1;
    }
    assert(cs@.subrange(0, cs@.len() as int) =~= cs@);
    out
}

/// A path with `.` dropped and `..` applied, as a text.
pub fn normalize_template_path(path: &str) -> (r: String)
    ensures
        r@ == normalized_path(path@),
{
    let parts = resolve_parts(component_texts(path));
    text_of_path(str_starts_with(path, "/"), &parts)
}

fn contains_char(s: &str, c: char) -> (r: bool)
    ensures
        r == s@.contains(c),
{
    let v = chars_of(s);
    let mut i: usize = 0;
    while i < v.len()
        invariant
            0 <= i <= v@.len(),
            v@ == s@,
            forall|k: int| 0 <= k < i ==> v@[k] != c,
        decreases v@.len() - i,
    {
        if v[i] == c {
            return true;
        }
        i += 1;
    }
    false
}

fn contains_text(v: &Vec<String>, s: &str) -> (r: bool)
    ensures
        r == texts(v@).contains(s@),
{
    let mut i: usize = 0;
    while i < v.len()
        invariant
            0 <= i <= v@.len(),
            forall|k: int| 0 <= k < i ==> #[trigger] v@[k]@ != s@,
        decreases v@.len() - i,
    {
        if str_eq(v[i].as_str(), s) {
            assert(texts(v@)[i as int] == s@);
            return true;
        }
        i += 1;
    }
    assert(!texts(v@).contains(s@)) by {
        if texts(v@).contains(s@) {
            let k = choose|k: int| 0 <= k < texts(v@).len() && texts(v@)[k] == s@;
            assert(v@[k]@ == s@);
        }
    }
    false
}

/// The name under which a template included as `name` from `parent` is
/// looked up (see [`joined_template_name`]).
pub fn join_template_name(name: &str, parent: &str, registered: &Vec<String>) -> (r: String)
    ensures
        r@ == joined_template_name(name@, parent@, texts(registered@)),
{
    if contains_text(registered, name) || str_starts_with(name, "/") {
        return name.to_owned();
    }
    let absolute = str_starts_with(parent, "/");
    if !absolute && !contains_char(parent, '/') && !contains_char(parent, '\\') {
        return name.to_owned();
    }
    let mut dir = component_texts(parent);
    if dir.len() > 0 {
        let _ = dir.pop();
    }
    let ghost d = texts(dir@);
    assert(d =~= all_but_last(components(parent@)));
    let mut rest = component_texts(name);
    let ghost nv = texts(rest@);
    dir.append(&mut rest);
    assert(texts(dir@) =~= d + nv);
    let parts = resolve_parts(dir);
    text_of_path(absolute, &parts)
}

} // verus!
