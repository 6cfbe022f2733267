//! Output-path derivation.
//!
//! A path is its text, read the Unix way: `/` separates, an empty or `.`
//! component says nothing except at the very start, and a leading `/` is the
//! root. Nothing here touches the filesystem; a caller who needs symlinks
//! resolved resolves them first.
use vstd::prelude::*;

use crate::error::CoreError;
use crate::text;

verus! {

// ------------------------------------------------------------- components --

/// A component that says nothing: empty, or `.`.
pub open spec fn is_blank(seg: Seq<char>) -> bool {
    seg.len() == 0 || seg =~= seq!['.']
}

/// What follows the first separator.
pub open spec fn rest_of(s: Seq<char>) -> Seq<char> {
    let k = text::first_index(s, '/');
    if k < s.len() {
        s.skip(k + 1)
    } else {
        Seq::empty()
    }
}

/// What stands before the first separator.
pub open spec fn first_of(s: Seq<char>) -> Seq<char> {
    s.take(text::first_index(s, '/'))
}

/// The components of a text with no regard for how it begins.
pub open spec fn body(s: Seq<char>) -> Seq<Seq<char>>
    decreases s.len(),
{
    if s.len() == 0 {
        Seq::empty()
    } else {
        proof {
            text::lemma_first_index(s, '/');
        }
        if is_blank(first_of(s)) {
            body(rest_of(s))
        } else {
            seq![first_of(s)] + body(rest_of(s))
        }
    }
}

/// The component that says how a path begins: the root, or a leading `.`.
pub open spec fn start(s: Seq<char>) -> Seq<Seq<char>> {
    if s.len() > 0 && s[0] == '/' {
        seq![seq!['/']]
    } else if first_of(s) =~= seq!['.'] {
        seq![seq!['.']]
    } else {
        Seq::empty()
    }
}

/// The components of a path. The root, where there is one, is `/`.
pub open spec fn components(s: Seq<char>) -> Seq<Seq<char>> {
    start(s) + body(s)
}

/// Two paths name the same place, lexically.
pub open spec fn equivalent(a: Seq<char>, b: Seq<char>) -> bool {
    components(a) == components(b)
}

/// A component that names an entry of a directory.
pub open spec fn is_normal(seg: Seq<char>) -> bool {
    &&& !is_blank(seg)
    &&& seg != seq!['.', '.']
    &&& !seg.contains('/')
}

// -------------------------------------------------------------- the end of --

/// The path without trailing separators and trailing `.` components.
pub open spec fn trim_tail(s: Seq<char>) -> Seq<char>
    decreases s.len(),
{
    if s.len() <= 1 {
        s
    } else if s.last() == '/' || (s.last() == '.' && s[s.len() - 2] == '/') {
        trim_tail(s.drop_last())
    } else {
        s
    }
}

/// The text after the last separator of the trimmed path.
pub open spec fn last_of(s: Seq<char>) -> Seq<char> {
    let t = trim_tail(s);
    t.skip(text::last_index(t, '/') + 1)
}

/// The final component, where it names an entry.
pub open spec fn file_name(s: Seq<char>) -> Option<Seq<char>> {
    let seg = last_of(s);
    if is_blank(seg) || seg =~= seq!['.', '.'] {
        None
    } else {
        Some(seg)
    }
}

/// The path without its final component. `None` for the root and for nothing.
pub open spec fn parent(s: Seq<char>) -> Option<Seq<char>> {
    let t = trim_tail(s);
    let i = text::last_index(t, '/');
    if t.len() == 0 || t =~= seq!['/'] {
        None
    } else if i < 0 {
        Some(Seq::empty())
    } else if i == 0 {
        Some(seq!['/'])
    } else {
        Some(trim_tail(t.take(i)))
    }
}

/// Where the extension of a name begins: its last `.`, unless that is the
/// first character.
pub open spec fn dot_of(name: Seq<char>) -> Option<int> {
    let d = text::last_index(name, '.');
    if d > 0 {
        Some(d)
    } else {
        None
    }
}

/// The extension of the final component.
pub open spec fn extension(s: Seq<char>) -> Option<Seq<char>> {
    match file_name(s) {
        Some(name) => match dot_of(name) {
            Some(d) => Some(name.skip(d + 1)),
            None => None,
        },
        None => None,
    }
}

/// `b` placed under `a`; an absolute `b` replaces it.
pub open spec fn joined(a: Seq<char>, b: Seq<char>) -> Seq<char> {
    if b.len() > 0 && b[0] == '/' {
        b
    } else if a.len() > 0 && a.last() != '/' {
        a.push('/') + b
    } else {
        a + b
    }
}

/// The stem used for output names.
pub open spec fn stem(s: Seq<char>) -> Seq<char> {
    match file_name(s) {
        None => "output"@,
        Some(name) => match dot_of(name) {
            Some(d) => if d + 1 < name.len() {
                name.take(d)
            } else {
                name
            },
            None => name,
        },
    }
}

// -------------------------------------------------------------- the prefix --

/// The text from the first component that says something.
pub open spec fn skip_blank(s: Seq<char>) -> Seq<char>
    decreases s.len(),
{
    if s.len() == 0 {
        s
    } else {
        proof {
            text::lemma_first_index(s, '/');
        }
        if is_blank(first_of(s)) {
            skip_blank(rest_of(s))
        } else {
            s
        }
    }
}

/// The text after `n` components.
pub open spec fn after(s: Seq<char>, n: nat) -> Seq<char>
    decreases n,
{
    if n == 0 {
        skip_blank(s)
    } else {
        after(rest_of(skip_blank(s)), (n - 1) as nat)
    }
}

/// Every component of `base` stands at the front of `s`.
pub open spec fn under(s: Seq<char>, base: Seq<char>) -> bool {
    &&& components(base).len() <= components(s).len()
    &&& components(s).take(components(base).len() as int) == components(base)
}

/// The path below `base`.
pub open spec fn below(s: Seq<char>, base: Seq<char>) -> Seq<char> {
    let n = components(base).len();
    if n == 0 {
        trim_tail(s)
    } else if start(s).len() == 1 {
        trim_tail(after(s.skip(1), (n - 1) as nat))
    } else {
        trim_tail(after(s, n))
    }
}

// ---------------------------------------------------------------- reading --

fn blank(v: &Vec<char>, from: usize, to: usize) -> (r: bool)
    requires
        from <= to <= v@.len(),
    ensures
        r == is_blank(v@.subrange(from as int, to as int)),
{
    let ghost seg = v@.subrange(from as int, to as int);
    assert(to == from + 1 && v@[from as int] == '.' ==> seg =~= seq!['.']);
    assert(to > from ==> seg[0] == v@[from as int]);
    to == from || (to == from + 1 && v[from] == '.')
}

/// The components of a path, in order.
fn components_of(s: &str) -> (r: Vec<String>)
    ensures
        text::texts(r@) == components(s@),
{
    let v = text::to_chars(s);
    let mut r: Vec<String> = Vec::new();
    let first: usize = text::find_from(&v, '/', 0);
    assert(v@.skip(0) =~= s@);
    assert(v@.take(first as int) =~= first_of(s@));
    if v.len() > 0 && v[0] == '/' {
        text::push_text(&mut r, "/");
        proof {
            reveal_strlit("/");
            assert("/"@ =~= seq!['/']);
        }
    } else if first == 1 && v[0] == '.' {
        text::push_text(&mut r, ".");
        proof {
            reveal_strlit(".");
            assert("."@ =~= seq!['.']);
        }
    }
    assert(text::texts(r@) =~= start(s@));
    let mut pos: usize = 0;
    while pos < v.len()
        invariant
            pos <= v@.len(),
            v@ == s@,
            text::texts(r@) + body(v@.skip(pos as int)) == start(s@) + body(s@),
        decreases v.len() - pos,
    {
        let k: usize = text::find_from(&v, '/', pos);
        let ghost here = v@.skip(pos as int);
        assert(first_of(here) =~= v@.subrange(pos as int, k as int));
        assert(k < v@.len() ==> rest_of(here) =~= v@.skip(k + 1));
        assert(k == v@.len() ==> rest_of(here) =~= v@.skip(k as int));
        let ghost before = text::texts(r@);
        if !blank(&v, pos, k) {
            r.push(text::slice_text(&v, pos, k));
            assert(text::texts(r@) =~= before.push(first_of(here)));
        }
        pos = if k < v.len() {
            k + 1
        } else {
            k
        };
        assert(text::texts(r@) + body(v@.skip(pos as int)) =~= before + body(here));
    }
    assert(v@.skip(pos as int) =~= Seq::<char>::empty());
    assert(text::texts(r@) =~= text::texts(r@) + body(v@.skip(pos as int)));
    r
}

/// The end of the trimmed path.
fn trim_end(v: &Vec<char>) -> (e: usize)
    ensures
        e <= v@.len(),
        v@.take(e as int) == trim_tail(v@),
{
    let mut e: usize = v.len();
    assert(v@.take(e as int) =~= v@);
    while e > 1 && (v[e - 1] == '/' || (v[e - 1] == '.' && v[e - 2] == '/'))
        invariant
            e <= v@.len(),
            trim_tail(v@.take(e as int)) == trim_tail(v@),
        decreases e,
    {
        assert(v@.take(e as int).drop_last() =~= v@.take(e - 1));
        e -= 1;
    }
    e
}

/// The final component of a path, where it names an entry.
pub fn file_name_of(s: &str) -> (r: Option<String>)
    ensures
        r is Some == file_name(s@) is Some,
        r is Some ==> r->0@ == file_name(s@)->0,
{
    let v = text::to_chars(s);
    let e: usize = trim_end(&v);
    let k: usize = text::rfind_before(&v, '/', e);
    assert(v@.subrange(k as int, e as int) =~= last_of(s@));
    if blank(&v, k, e) {
        return None;
    }
    if e >= 2 && k == e - 2 && v[k] == '.' && v[k + 1] == '.' {
        assert(last_of(s@) =~= seq!['.', '.']);
        return None;
    }
    Some(text::slice_text(&v, k, e))
}

/// The path without its final component.
pub fn parent_of(s: &str) -> (r: Option<String>)
    ensures
        r is Some == parent(s@) is Some,
        r is Some ==> r->0@ == parent(s@)->0,
{
    let v = text::to_chars(s);
    let e: usize = trim_end(&v);
    let ghost t = trim_tail(s@);
    if e == 0 || (e == 1 && v[0] == '/') {
        assert(e == 1 ==> t =~= seq!['/']);
        return None;
    }
    assert(t != seq!['/']) by {
        if e == 1 {
            assert(t[0] == v@[0]);
            assert(seq!['/'][0] == '/');
        } else {
            assert(t.len() == e);
        }
    }
    let k: usize = text::rfind_before(&v, '/', e);
    if k == 0 {
        return Some(String::new());
    }
    if k == 1 {
        let r = text::slice_text(&v, 0, 1);
        assert(r@ =~= seq!['/']);
        return Some(r);
    }
    let head = text::slice_text(&v, 0, k - 1);
    assert(head@ =~= t.take(k - 1));
    let w = text::to_chars(head.as_str());
    let f: usize = trim_end(&w);
    let r = text::slice_text(&w, 0, f);
    assert(r@ =~= trim_tail(head@));
    Some(r)
}

/// The extension of the final component of a path.
pub fn extension_of(s: &str) -> (r: Option<String>)
    ensures
        r is Some == extension(s@) is Some,
        r is Some ==> r->0@ == extension(s@)->0,
{
    match file_name_of(s) {
        None => None,
        Some(name) => {
            let v = text::to_chars(name.as_str());
            let k: usize = text::rfind_before(&v, '.', v.len());
            assert(v@.take(v@.len() as int) =~= v@);
            if k <= 1 {
                None
            } else {
                let r = text::slice_text(&v, k, v.len());
                assert(r@ =~= name@.skip(k as int));
                Some(r)
            }
        },
    }
}

/// `b` placed under `a`; an absolute `b` replaces it.
pub fn join(a: &str, b: &str) -> (r: String)
    ensures
        r@ == joined(a@, b@),
{
    let va = text::to_chars(a);
    let vb = text::to_chars(b);
    if vb.len() > 0 && vb[0] == '/' {
        return b.to_owned();
    }
    let mut r = a.to_owned();
    if va.len() > 0 && va[va.len() - 1] != '/' {
        r.push('/');
    }
    r.append(b);
    r
}

/// Whether a path is absolute.
pub fn is_absolute(s: &str) -> (r: bool)
    ensures
        r == (s@.len() > 0 && s@[0] == '/'),
{
    let v = text::to_chars(s);
    v.len() > 0 && v[0] == '/'
}

fn same_texts(a: &Vec<String>, b: &Vec<String>, n: usize) -> (r: bool)
    requires
        n <= a@.len(),
        n <= b@.len(),
    ensures
        r == (text::texts(a@).take(n as int) == text::texts(b@).take(n as int)),
{
    let mut i: usize = 0;
    while i < n
        invariant
            i <= n,
            n <= a@.len(),
            n <= b@.len(),
            forall|j: int| 0 <= j < i ==> text::texts(a@)[j] == text::texts(b@)[j],
        decreases n - i,
    {
        if !text::same(a[i].as_str(), b[i].as_str()) {
            assert(text::texts(a@).take(n as int)[i as int] != text::texts(b@).take(n as int)[i as int]);
            return false;
        }
        i += 1;
    }
    assert(text::texts(a@).take(n as int) =~= text::texts(b@).take(n as int));
    true
}

fn skip_blank_from(v: &Vec<char>, from: usize) -> (p: usize)
    requires
        from <= v@.len(),
    ensures
        from <= p <= v@.len(),
        v@.skip(p as int) == skip_blank(v@.skip(from as int)),
{
    let mut p: usize = from;
    while p < v.len()
        invariant
            from <= p <= v@.len(),
            skip_blank(v@.skip(p as int)) == skip_blank(v@.skip(from as int)),
        decreases v.len() - p,
    {
        let k: usize = text::find_from(v, '/', p);
        let ghost here = v@.skip(p as int);
        assert(first_of(here) =~= v@.subrange(p as int, k as int));
        assert(k < v@.len() ==> rest_of(here) =~= v@.skip(k + 1));
        assert(k == v@.len() ==> rest_of(here) =~= v@.skip(k as int));
        if !blank(v, p, k) {
            return p;
        }
        p = if k < v.len() {
            k + 1
        } else {
            k
        };
    }
    p
}

fn after_from(v: &Vec<char>, from: usize, n: usize) -> (p: usize)
    requires
        from <= v@.len(),
    ensures
        p <= v@.len(),
        v@.skip(p as int) == after(v@.skip(from as int), n as nat),
    decreases n,
{
    let q: usize = skip_blank_from(v, from);
    if n == 0 {
        return q;
    }
    let k: usize = text::find_from(v, '/', q);
    let ghost here = v@.skip(q as int);
    let next: usize = if k < v.len() {
        k + 1
    } else {
        k
    };
    assert(k < v@.len() ==> rest_of(here) =~= v@.skip(k + 1));
    assert(k == v@.len() ==> rest_of(here) =~= v@.skip(k as int));
    after_from(v, next, n - 1)
}

/// The path below `base`, or `None` where `s` is not under it.
pub fn strip_prefix(s: &str, base: &str) -> (r: Option<String>)
    ensures
        r is Some == under(s@, base@),
        r is Some ==> r->0@ == below(s@, base@),
{
    let cs = components_of(s);
    let cb = components_of(base);
    if cb.len() > cs.len() {
        return None;
    }
    let n: usize = cb.len();
    let same = same_texts(&cs, &cb, n);
    assert(text::texts(cb@).take(n as int) =~= components(base@));
    if !same {
        return None;
    }
    let v = text::to_chars(s);
    let first: usize = text::find_from(&v, '/', 0);
    assert(v@.skip(0) =~= s@);
    assert(v@.take(first as int) =~= first_of(s@));
    let begins: bool = (v.len() > 0 && v[0] == '/') || (first == 1 && v[0] == '.');
    proof {
        if first == 1 && v@[0] == '.' {
            assert(first_of(s@) =~= seq!['.']);
        }
    }
    assert(begins == (start(s@).len() == 1));
    let p: usize = if n == 0 {
        0
    } else if begins {
        after_from(&v, 1, n - 1)
    } else {
        after_from(&v, 0, n)
    };
    let tail = text::slice_text(&v, p, v.len());
    assert(tail@ =~= s@.skip(p as int));
    let w = text::to_chars(tail.as_str());
    let e: usize = trim_end(&w);
    let r = text::slice_text(&w, 0, e);
    assert(r@ =~= trim_tail(tail@));
    Some(r)
}

// --------------------------------------------------------------- deriving --

/// A filename stem cut at the last `.` before a nonempty extension.
///
/// Names that legitimately contain dots keep them. A dotfile, a name with no
/// extension and a name that ends in `.` are returned whole; a path with no
/// final name gives `output`.
pub fn strict_stem(path: &str) -> (r: String)
    ensures
        r@ == stem(path@),
{
    match file_name_of(path) {
        None => "output".to_owned(),
        Some(name) => {
            let v = text::to_chars(name.as_str());
            let k: usize = text::rfind_before(&v, '.', v.len());
            assert(v@.take(v@.len() as int) =~= v@);
            if k <= 1 || k == v.len() {
                name
            } else {
                let r = text::slice_text(&v, 0, k - 1);
                assert(r@ =~= name@.take(k - 1));
                r
            }
        },
    }
}

/// Whether two paths name the same place, lexically.
///
/// The caller canonicalises first where symlinks matter.
pub fn paths_equivalent(a: &str, b: &str) -> (r: bool)
    ensures
        r == equivalent(a@, b@),
{
    let ca = components_of(a);
    let cb = components_of(b);
    if ca.len() != cb.len() {
        return false;
    }
    let r = same_texts(&ca, &cb, ca.len());
    assert(text::texts(ca@).take(ca@.len() as int) =~= components(a@));
    assert(text::texts(cb@).take(ca@.len() as int) =~= components(b@));
    r
}

/// The name an output gets beside its input.
pub open spec fn suffixed_name(input: Seq<char>, ext: Seq<char>) -> Seq<char> {
    stem(input) + "_transcoded."@ + ext
}

/// The sibling of `input` with the suffixed name.
pub open spec fn suffixed(input: Seq<char>, ext: Seq<char>) -> Seq<char> {
    joined(
        match parent(input) {
            Some(p) => p,
            None => "."@,
        },
        suffixed_name(input, ext),
    )
}

/// A sibling output path with a `_transcoded` suffix and the given extension,
/// used whenever writing next to the input would otherwise clobber it.
pub fn suffixed_output(input_path: &str, out_ext: &str) -> (r: String)
    ensures
        r@ == suffixed(input_path@, out_ext@),
{
    let dir = match parent_of(input_path) {
        Some(p) => p,
        None => ".".to_owned(),
    };
    let name = text::cat3(strict_stem(input_path).as_str(), "_transcoded.", out_ext);
    join(dir.as_str(), name.as_str())
}

/// A safe output path from an input and an optional user-supplied output.
///
/// A user-supplied output that differs from the input is used as given,
/// resolved against `base_dir` when relative. One equivalent to the input, or
/// none at all, yields the suffixed sibling of the input.
pub fn resolve_output_path(
    input: &str,
    output_opt: Option<&str>,
    default_ext: &str,
    base_dir: &str,
) -> (r: Result<String, CoreError>)
    ensures
        r is Err == file_name(input@) is None,
        r is Err ==> r->Err_0 is InvalidPath && r->Err_0->InvalidPath_0@ == input@,
        r is Ok ==> r->Ok_0@ == (match output_opt {
            None => suffixed(input@, default_ext@),
            Some(out) => {
                let abs = joined(base_dir@, out@);
                if equivalent(input@, abs) {
                    suffixed(input@, default_ext@)
                } else {
                    abs
                }
            },
        }),
{
    if file_name_of(input).is_none() {
        return Err(CoreError::InvalidPath(input.to_owned()));
    }
    match output_opt {
        None => Ok(suffixed_output(input, default_ext)),
        Some(out) => {
            let abs = if is_absolute(out) {
                out.to_owned()
            } else {
                join(base_dir, out)
            };
            if paths_equivalent(input, abs.as_str()) {
                Ok(suffixed_output(input, default_ext))
            } else {
                Ok(abs)
            }
        },
    }
}

/// The path with the extension of its final component replaced.
pub open spec fn with_extension(s: Seq<char>, ext: Seq<char>) -> Seq<char> {
    if file_name(s) is None {
        s
    } else if ext.len() == 0 {
        without_extension(s)
    } else {
        without_extension(s).push('.') + ext
    }
}

/// The trimmed path up to the extension of its final component.
pub open spec fn without_extension(s: Seq<char>) -> Seq<char> {
    let t = trim_tail(s);
    match dot_of(last_of(s)) {
        Some(d) => t.take(text::last_index(t, '/') + 1 + d),
        None => t,
    }
}

fn cut_extension(s: &str) -> (r: String)
    ensures
        r@ == without_extension(s@),
{
    let v = text::to_chars(s);
    let e: usize = trim_end(&v);
    let ghost t = trim_tail(s@);
    let k: usize = text::rfind_before(&v, '/', e);
    let name = text::slice_text(&v, k, e);
    assert(name@ =~= last_of(s@));
    let n = text::to_chars(name.as_str());
    let d: usize = text::rfind_before(&n, '.', n.len());
    assert(n@.take(n@.len() as int) =~= n@);
    assert(d - 1 == text::last_index(name@, '.'));
    let end: usize = if d > 1 {
        k + (d - 1)
    } else {
        e
    };
    let r = text::slice_text(&v, 0, end);
    assert(r@ =~= t.take(end as int));
    assert(t.take(e as int) =~= t);
    r
}

/// The path with the extension of its final component replaced.
///
/// A path with no final name is returned as it is.
pub fn set_extension(s: &str, ext: &str) -> (r: String)
    ensures
        r@ == with_extension(s@, ext@),
{
    match file_name_of(s) {
        None => s.to_owned(),
        Some(_) => {
            let mut r = cut_extension(s);
            if !ext.is_empty() {
                r.push('.');
                r.append(ext);
            }
            r
        },
    }
}

/// The output mirrored from one root into another.
pub open spec fn mirrored(
    input: Seq<char>,
    in_root: Seq<char>,
    out_root: Seq<char>,
    ext: Seq<char>,
) -> Seq<char> {
    with_extension(joined(out_root, below(input, in_root)), ext)
}

/// Mirror `input` from `in_root` into `out_root`, replacing its extension.
///
/// When the two roots are equivalent the mirrored path would be the input, so
/// the suffixed sibling is used instead. An input outside `in_root` is refused.
pub fn plan_output_path(input: &str, in_root: &str, out_root: &str, ext: &str) -> (r: Result<
    String,
    CoreError,
>)
    requires
        !equivalent(in_root@, out_root@) && under(input@, in_root@) ==> !ext@.contains('/'),
    ensures
        r is Err == (!equivalent(in_root@, out_root@) && !under(input@, in_root@)),
        r is Err ==> r->Err_0 is InvalidPath && r->Err_0->InvalidPath_0@ == input@
            + " is not under "@ + in_root@,
        r is Ok ==> r->Ok_0@ == (if equivalent(in_root@, out_root@) {
            suffixed(input@, ext@)
        } else {
            mirrored(input@, in_root@, out_root@, ext@)
        }),
{
    if paths_equivalent(in_root, out_root) {
        return Ok(suffixed_output(input, ext));
    }
    match strip_prefix(input, in_root) {
        None => Err(CoreError::InvalidPath(text::cat3(input, " is not under ", in_root))),
        Some(rel) => {
            let out = join(out_root, rel.as_str());
            Ok(set_extension(out.as_str(), ext))
        },
    }
}

/// The part of a replaced file's path that is kept under the trash directory.
pub open spec fn retained(library_root: Seq<char>, final_path: Seq<char>) -> Seq<char> {
    if under(final_path, library_root) && below(final_path, library_root).len() > 0 {
        below(final_path, library_root)
    } else {
        match file_name(final_path) {
            Some(name) => name,
            None => "recovered"@,
        }
    }
}

/// The components of `s` that name an entry, in order.
pub open spec fn normals(cs: Seq<Seq<char>>) -> Seq<Seq<char>> {
    cs.filter(|c: Seq<char>| is_normal(c))
}

/// The retained path with everything but entry names dropped.
pub open spec fn safe_path(library_root: Seq<char>, final_path: Seq<char>) -> Seq<char> {
    let names = normals(components(retained(library_root, final_path)));
    if names.len() == 0 {
        "recovered"@
    } else {
        text::joined(names, seq!['/'])
    }
}

fn normal(seg: &str) -> (r: bool)
    requires
        !seg@.contains('/') || seg@ == seq!['/'],
    ensures
        r == is_normal(seg@),
{
    let v = text::to_chars(seg);
    if blank(&v, 0, v.len()) {
        assert(v@.subrange(0, v@.len() as int) =~= seg@);
        return false;
    }
    assert(v@.subrange(0, v@.len() as int) =~= seg@);
    if v.len() == 2 && v[0] == '.' && v[1] == '.' {
        assert(seg@ =~= seq!['.', '.']);
        return false;
    }
    if v.len() == 1 && v[0] == '/' {
        assert(seg@.contains('/'));
        return false;
    }
    true
}

proof fn lemma_filter_push(cs: Seq<Seq<char>>, c: Seq<char>)
    ensures
        normals(cs.push(c)) == (if is_normal(c) {
            normals(cs).push(c)
        } else {
            normals(cs)
        }),
{
    reveal(Seq::filter);
    assert(cs.push(c).drop_last() =~= cs);
}

/// Where a replaced original is retained.
///
/// The path below the library root is kept under the trash directory, so that
/// two files of one name in different directories do not overwrite each other.
/// A path outside the root keeps its bare name. Only entry names survive.
pub fn trash_path_for(trash_dir: &str, library_root: &str, final_path: &str) -> (r: String)
    ensures
        r@ == joined(trash_dir@, safe_path(library_root@, final_path@)),
{
    let relative = match strip_prefix(final_path, library_root) {
        Some(rel) => if rel.as_str().is_empty() {
            None
        } else {
            Some(rel)
        },
        None => None,
    };
    let kept = match relative {
        Some(rel) => rel,
        None => match file_name_of(final_path) {
            Some(name) => name,
            None => "recovered".to_owned(),
        },
    };
    assert(kept@ == retained(library_root@, final_path@));
    let cs = components_of(kept.as_str());
    let ghost all = components(kept@);
    let mut names: Vec<String> = Vec::new();
    let mut i: usize = 0;
    proof {
        reveal(Seq::filter);
        assert(normals(all.take(0)) =~= Seq::empty());
    }
    while i < cs.len()
        invariant
            i <= cs@.len(),
            all == components(kept@),
            text::texts(cs@) == all,
            text::texts(names@) == normals(all.take(i as int)),
        decreases cs.len() - i,
    {
        assert(cs@[i as int]@ == all[i as int]);
        assert(all.take(i + 1) =~= all.take(i as int).push(all[i as int]));
        proof {
            lemma_component_shape(kept@, i as int);
            lemma_filter_push(all.take(i as int), all[i as int]);
        }
        if normal(cs[i].as_str()) {
            text::push_text(&mut names, cs[i].as_str());
        }
        i += 1;
    }
    assert(all.take(i as int) =~= all);
    let safe = if names.len() == 0 {
        "recovered".to_owned()
    } else {
        text::join(names.as_slice(), "/")
    };
    proof {
        reveal_strlit("/");
        assert("/"@ =~= seq!['/']);
        assert(names@.len() == text::texts(names@).len());
    }
    join(trash_dir, safe.as_str())
}

// ------------------------------------------------------------------- laws --

proof fn lemma_body_shape(s: Seq<char>, i: int)
    requires
        0 <= i < body(s).len(),
    ensures
        !is_blank(body(s)[i]),
        !body(s)[i].contains('/'),
    decreases s.len(),
{
    text::lemma_first_index(s, '/');
    if is_blank(first_of(s)) {
        lemma_body_shape(rest_of(s), i);
    } else if i > 0 {
        lemma_body_shape(rest_of(s), i - 1);
    } else {
        assert(body(s)[0] == first_of(s));
    }
}

proof fn lemma_component_shape(s: Seq<char>, i: int)
    requires
        0 <= i < components(s).len(),
    ensures
        !components(s)[i].contains('/') || components(s)[i] == seq!['/'],
{
    let n = start(s).len();
    if i >= n {
        lemma_body_shape(s, i - n);
    } else {
        assert(components(s)[i] == start(s)[i]);
    }
}

pub proof fn lemma_body_concat(a: Seq<char>, b: Seq<char>)
    ensures
        body(a.push('/') + b) == body(a) + body(b),
    decreases a.len(),
{
    let s = a.push('/') + b;
    text::lemma_first_index(a, '/');
    let k = text::first_index(a, '/');
    text::lemma_first_index_is(s, '/', k);
    assert(first_of(s) =~= first_of(a));
    if k < a.len() {
        assert(rest_of(s) =~= rest_of(a).push('/') + b);
        lemma_body_concat(rest_of(a), b);
        assert(body(s) =~= body(a) + body(b));
    } else {
        assert(rest_of(s) =~= b);
        assert(rest_of(a) =~= Seq::<char>::empty());
        assert(first_of(a) =~= a);
        assert(body(rest_of(a)) =~= Seq::empty());
        assert(body(s) =~= body(a) + body(b));
    }
}

pub proof fn lemma_body_single(x: Seq<char>)
    requires
        !x.contains('/'),
    ensures
        body(x) == (if is_blank(x) {
            Seq::<Seq<char>>::empty()
        } else {
            seq![x]
        }),
{
    text::lemma_first_index(x, '/');
    let k = text::first_index(x, '/');
    if k < x.len() {
        assert(x.contains(x[k]));
    }
    assert(first_of(x) =~= x);
    assert(rest_of(x) =~= Seq::<char>::empty());
    assert(body(rest_of(x)) =~= Seq::empty());
    if x.len() > 0 && !is_blank(x) {
        assert(body(x) =~= seq![x]);
    }
}

proof fn lemma_body_joined(names: Seq<Seq<char>>)
    requires
        names.len() > 0,
        forall|i: int| 0 <= i < names.len() ==> is_normal(#[trigger] names[i]),
    ensures
        body(text::joined(names, seq!['/'])) == names,
    decreases names.len(),
{
    let sep = seq!['/'];
    if names.len() == 1 {
        lemma_body_single(names[0]);
        assert(names =~= seq![names[0]]);
    } else {
        let head = names.drop_last();
        assert forall|i: int| 0 <= i < head.len() implies is_normal(#[trigger] head[i]) by {
            assert(head[i] == names[i]);
        }
        lemma_body_joined(head);
        let h = text::joined(head, sep);
        assert(text::joined(names, sep) =~= h.push('/') + names.last());
        lemma_body_concat(h, names.last());
        lemma_body_single(names.last());
        assert(body(text::joined(names, sep)) =~= names);
    }
}

proof fn lemma_body_trim(s: Seq<char>)
    ensures
        body(trim_tail(s)) == body(s),
    decreases s.len(),
{
    if s.len() > 1 && (s.last() == '/' || (s.last() == '.' && s[s.len() - 2] == '/')) {
        lemma_body_trim(s.drop_last());
        if s.last() == '/' {
            let a = s.drop_last();
            assert(s =~= a.push('/') + Seq::<char>::empty());
            lemma_body_concat(a, Seq::empty());
            assert(body(Seq::<char>::empty()) =~= Seq::empty());
            assert(body(s) =~= body(a));
        } else {
            let a = s.take(s.len() - 2);
            let dot = seq!['.'];
            assert(s =~= a.push('/') + dot);
            lemma_body_concat(a, dot);
            assert(!dot.contains('/'));
            lemma_body_single(dot);
            assert(s.drop_last() =~= a.push('/') + Seq::<char>::empty());
            lemma_body_concat(a, Seq::empty());
            assert(body(Seq::<char>::empty()) =~= Seq::empty());
            assert(body(s) =~= body(s.drop_last()));
        }
    }
}

/// The final component of a path is its file name, where it has one.
proof fn lemma_file_name_is_last(s: Seq<char>)
    requires
        file_name(s) is Some,
    ensures
        body(s).len() > 0,
        body(s).last() == file_name(s)->0,
        !file_name(s)->0.contains('/'),
{
    let t = trim_tail(s);
    lemma_body_trim(s);
    text::lemma_last_index(t, '/');
    let i = text::last_index(t, '/');
    let seg = t.skip(i + 1);
    assert(!seg.contains('/')) by {
        if seg.contains('/') {
            let j = choose|j: int| 0 <= j < seg.len() && seg[j] == '/';
            assert(t[i + 1 + j] == '/');
        }
    }
    lemma_body_single(seg);
    if i >= 0 {
        assert(t =~= t.take(i).push('/') + seg);
        lemma_body_concat(t.take(i), seg);
    } else {
        assert(t =~= seg);
    }
}

/// An entry placed in a directory is named by its own name.
pub proof fn law_entry_keeps_its_name(dir: Seq<char>, name: Seq<char>)
    requires
        is_normal(name),
    ensures
        trim_tail(joined(dir, name)) == joined(dir, name),
        last_of(joined(dir, name)) == name,
        file_name(joined(dir, name)) == Some(name),
{
    let j = joined(dir, name);
    let n = j.len() - name.len();
    assert(name[0] != '/') by {
        assert(name.contains(name[0]));
    }
    assert(j.skip(n) =~= name);
    assert(j.last() == name.last());
    assert(name.last() != '/') by {
        assert(name.contains(name.last()));
    }
    if name.last() == '.' {
        assert(name.len() > 1) by {
            if name.len() == 1 {
                assert(name =~= seq!['.']);
            }
        }
        assert(j[j.len() - 2] == name[name.len() - 2]);
        assert(name.contains(name[name.len() - 2]));
    }
    assert(trim_tail(j) == j);
    assert forall|i: int| n <= i < j.len() implies j[i] != '/' by {
        assert(j[i] == name[i - n]);
        assert(name.contains(name[i - n]));
    }
    if n > 0 {
        assert(j[n - 1] == '/');
    }
    text::lemma_last_index_is(j, '/', n - 1);
}

/// An extension holds no separator.
pub proof fn lemma_extension_has_no_separator(s: Seq<char>)
    ensures
        extension(s) matches Some(e) ==> !e.contains('/'),
{
    if extension(s) is Some {
        lemma_file_name_is_last(s);
        let name = file_name(s)->0;
        let e = extension(s)->0;
        let d = dot_of(name)->0;
        text::lemma_last_index(name, '.');
        if e.contains('/') {
            let j = choose|j: int| 0 <= j < e.len() && e[j] == '/';
            assert(name[d + 1 + j] == '/');
            assert(name.contains('/'));
        }
    }
}

/// An extension holds no dot.
pub proof fn lemma_extension_has_no_dot(s: Seq<char>)
    ensures
        extension(s) matches Some(e) ==> !e.contains('.'),
{
    if extension(s) is Some {
        let name = file_name(s)->0;
        let e = extension(s)->0;
        let d = dot_of(name)->0;
        text::lemma_last_index(name, '.');
        if e.contains('.') {
            let j = choose|j: int| 0 <= j < e.len() && e[j] == '.';
            assert(name[d + 1 + j] == '.');
        }
    }
}

proof fn lemma_body_join(a: Seq<char>, b: Seq<char>)
    requires
        b.len() == 0 || b[0] != '/',
    ensures
        body(joined(a, b)) == body(a) + body(b),
        a.len() > 0 ==> start(joined(a, b)) == start(a),
{
    let j = joined(a, b);
    if a.len() == 0 {
        assert(j =~= b);
        assert(body(a) =~= Seq::empty());
        assert(body(j) =~= body(a) + body(b));
    } else {
        let stripped = if a.last() == '/' {
            a.drop_last()
        } else {
            a
        };
        assert(j =~= stripped.push('/') + b);
        lemma_body_concat(stripped, b);
        if a.last() == '/' {
            assert(a =~= stripped.push('/') + Seq::<char>::empty());
            lemma_body_concat(stripped, Seq::empty());
            assert(body(Seq::<char>::empty()) =~= Seq::empty());
            assert(body(a) =~= body(stripped));
        }
        text::lemma_first_index(a, '/');
        let k = text::first_index(a, '/');
        text::lemma_first_index_is(j, '/', k);
        assert(first_of(j) =~= first_of(a));
        assert(j[0] == a[0]);
    }
}

proof fn lemma_names_below(dir: Seq<char>, names: Seq<Seq<char>>)
    requires
        names.len() > 0,
        forall|i: int| 0 <= i < names.len() ==> is_normal(#[trigger] names[i]),
    ensures
        components(joined(dir, text::joined(names, seq!['/']))) == components(dir) + names,
{
    let safe = text::joined(names, seq!['/']);
    lemma_body_joined(names);
    lemma_joined_head(names);
    lemma_body_join(dir, safe);
    let whole = components(joined(dir, safe));
    if dir.len() == 0 {
        assert(joined(dir, safe) =~= safe);
        assert(is_normal(names[0]));
        assert(start(safe) =~= Seq::empty());
        text::lemma_first_index(dir, '/');
        assert(first_of(dir) =~= Seq::<char>::empty());
        assert(start(dir) =~= Seq::empty());
        assert(body(dir) =~= Seq::empty());
        assert(whole =~= components(dir) + names);
    } else {
        assert(whole =~= components(dir) + names);
    }
}

/// An entry placed in a directory is one component below it.
pub proof fn law_entry_is_below(dir: Seq<char>, name: Seq<char>)
    requires
        is_normal(name),
    ensures
        components(joined(dir, name)) == components(dir).push(name),
{
    let names = seq![name];
    assert(text::joined(names, seq!['/']) == name);
    lemma_names_below(dir, names);
    assert(components(dir) + names =~= components(dir).push(name));
}

/// The entry names a retained original keeps.
pub open spec fn kept_names(library_root: Seq<char>, final_path: Seq<char>) -> Seq<Seq<char>> {
    let found = normals(components(retained(library_root, final_path)));
    if found.len() == 0 {
        seq!["recovered"@]
    } else {
        found
    }
}

/// A retained original stays inside the trash directory: below it stand only
/// entry names, and at least one of them.
pub proof fn law_trash_path_stays_inside(
    trash_dir: Seq<char>,
    library_root: Seq<char>,
    final_path: Seq<char>,
)
    ensures
        components(joined(trash_dir, safe_path(library_root, final_path))) == components(trash_dir)
            + kept_names(library_root, final_path),
        kept_names(library_root, final_path).len() > 0,
        forall|i: int|
            0 <= i < kept_names(library_root, final_path).len() ==> is_normal(
                #[trigger] kept_names(library_root, final_path)[i],
            ),
{
    let cs = components(retained(library_root, final_path));
    let names = kept_names(library_root, final_path);
    assert forall|i: int| 0 <= i < names.len() implies is_normal(#[trigger] names[i]) by {
        if normals(cs).len() == 0 {
            reveal_strlit("recovered");
        } else {
            cs.lemma_filter_pred(|c: Seq<char>| is_normal(c), i);
        }
    }
    lemma_names_below(trash_dir, names);
}

proof fn lemma_joined_head(names: Seq<Seq<char>>)
    requires
        names.len() > 0,
        forall|i: int| 0 <= i < names.len() ==> is_normal(#[trigger] names[i]),
    ensures
        text::joined(names, seq!['/']).len() > 0,
        text::joined(names, seq!['/'])[0] != '/',
        first_of(text::joined(names, seq!['/'])) == names[0],
    decreases names.len(),
{
    let j = text::joined(names, seq!['/']);
    let x = names[0];
    assert(is_normal(x));
    assert forall|i: int| 0 <= i < x.len() implies x[i] != '/' by {
        assert(x.contains(x[i]));
    }
    if names.len() == 1 {
        text::lemma_first_index_is(j, '/', x.len() as int);
        assert(first_of(j) =~= x);
    } else {
        let head = names.drop_last();
        assert forall|i: int| 0 <= i < head.len() implies is_normal(#[trigger] head[i]) by {
            assert(head[i] == names[i]);
        }
        lemma_joined_head(head);
        let h = text::joined(head, seq!['/']);
        assert(j =~= h + seq!['/'] + names.last());
        text::lemma_first_index(h, '/');
        let k = text::first_index(h, '/');
        text::lemma_first_index_is(j, '/', k);
        assert(first_of(j) =~= first_of(h));
        assert(j[0] == h[0]);
    }
}

/// Writing beside an input never lands on the input.
pub proof fn law_suffixed_output_is_not_the_input(input: Seq<char>, ext: Seq<char>)
    requires
        file_name(input) is Some,
        !ext.contains('/'),
    ensures
        !equivalent(input, suffixed(input, ext)),
{
    let name = file_name(input)->0;
    let new = suffixed_name(input, ext);
    lemma_file_name_is_last(input);
    text::lemma_last_index(name, '.');
    reveal_strlit("_transcoded.");
    let mid = "_transcoded."@;
    assert(new =~= stem(input) + mid + ext);
    assert(!new.contains('/')) by {
        if new.contains('/') {
            let j = choose|j: int| 0 <= j < new.len() && new[j] == '/';
            let n = stem(input).len();
            if j < n {
                assert(name[j] == '/');
                assert(name.contains('/'));
            } else if j < n + mid.len() {
                assert(mid[j - n] == '/');
            } else {
                assert(ext[j - n - mid.len()] == '/');
                assert(ext.contains('/'));
            }
        }
    }
    assert(new[0] != '/') by {
        assert(new.contains(new[0]));
    }
    let dir = match parent(input) {
        Some(p) => p,
        None => "."@,
    };
    lemma_body_join(dir, new);
    lemma_body_single(new);
    assert(body(suffixed(input, ext)).last() == new);
    assert(name != new) by {
        match dot_of(name) {
            Some(d) => {
                if d + 1 < name.len() {
                    assert(name[d] == '.');
                    assert(new[d] == mid[0]);
                } else {
                    assert(new.len() > name.len());
                }
            },
            None => {
                assert(new.len() > name.len());
            },
        }
    }
    assert(components(input).last() == name);
    assert(components(suffixed(input, ext)).last() == new);
}

proof fn lemma_skip_blank(s: Seq<char>)
    ensures
        body(skip_blank(s)) == body(s),
        skip_blank(s).len() == 0 || !is_blank(first_of(skip_blank(s))),
    decreases s.len(),
{
    if s.len() > 0 {
        text::lemma_first_index(s, '/');
        if is_blank(first_of(s)) {
            lemma_skip_blank(rest_of(s));
        }
    }
}

proof fn lemma_after(s: Seq<char>, n: nat)
    requires
        n <= body(s).len(),
    ensures
        body(after(s, n)) == body(s).skip(n as int),
    decreases n,
{
    let t = skip_blank(s);
    lemma_skip_blank(s);
    if n == 0 {
        assert(body(s).skip(0) =~= body(s));
    } else {
        assert(t.len() > 0) by {
            if t.len() == 0 {
                assert(body(t).len() == 0);
            }
        }
        let rest = body(rest_of(t));
        assert(body(t) == seq![first_of(t)] + rest);
        lemma_after(rest_of(t), (n - 1) as nat);
        assert(body(s).skip(n as int) =~= rest.skip(n - 1));
    }
}

proof fn lemma_start_trim(s: Seq<char>)
    ensures
        start(trim_tail(s)) == start(s),
    decreases s.len(),
{
    if s.len() > 1 && (s.last() == '/' || (s.last() == '.' && s[s.len() - 2] == '/')) {
        let t = s.drop_last();
        lemma_start_trim(t);
        text::lemma_first_index(s, '/');
        let k = text::first_index(s, '/');
        assert(k <= t.len()) by {
            if k == s.len() {
                if s.last() == '/' {
                    assert(s[s.len() - 1] != '/');
                } else {
                    assert(s[s.len() - 2] != '/');
                }
            }
        }
        assert forall|i: int| 0 <= i < k implies t[i] != '/' by {
            assert(t[i] == s[i]);
        }
        text::lemma_first_index_is(t, '/', k);
        assert(first_of(t) =~= first_of(s));
        assert(t[0] == s[0]);
    }
}

proof fn lemma_below_starts(s: Seq<char>, base: Seq<char>)
    requires
        under(s, base),
        components(base).len() > 0,
    ensures
        start(below(s, base)) == Seq::<Seq<char>>::empty(),
{
    let n = components(base).len();
    let begins = start(s).len() == 1;
    let (from, k) = if begins {
        (s.skip(1), (n - 1) as nat)
    } else {
        (s, n)
    };
    lemma_after_starts(from, k);
    lemma_start_trim(after(from, k));
}

proof fn lemma_after_starts(s: Seq<char>, n: nat)
    ensures
        start(after(s, n)) == Seq::<Seq<char>>::empty(),
    decreases n,
{
    let t = skip_blank(s);
    lemma_skip_blank(s);
    if n == 0 {
        text::lemma_first_index(t, '/');
        if t.len() > 0 && t[0] == '/' {
            text::lemma_first_index_is(t, '/', 0);
            assert(first_of(t).len() == 0);
        }
        assert(start(t) =~= Seq::empty());
    } else {
        lemma_after_starts(rest_of(t), (n - 1) as nat);
    }
}

/// The path below a directory holds the components that the directory does not
/// account for.
pub proof fn law_below_is_the_rest(s: Seq<char>, base: Seq<char>)
    requires
        under(s, base),
    ensures
        components(below(s, base)) == components(s).skip(components(base).len() as int),
{
    let n = components(base).len();
    text::lemma_first_index(s, '/');
    if n == 0 {
        lemma_start_trim(s);
        lemma_body_trim(s);
        assert(components(s).skip(0) =~= components(s));
    } else {
        let begins = start(s).len() == 1;
        let (from, k) = if begins {
            (s.skip(1), (n - 1) as nat)
        } else {
            (s, n)
        };
        if begins {
            if s[0] == '/' {
                text::lemma_first_index_is(s, '/', 0);
                assert(first_of(s) =~= Seq::<char>::empty());
                assert(rest_of(s) =~= from);
            } else {
                assert(first_of(s) =~= seq!['.']);
                assert(text::first_index(s, '/') == 1);
                if s.len() == 1 {
                    assert(from =~= Seq::<char>::empty());
                    assert(rest_of(s) =~= Seq::<char>::empty());
                } else {
                    assert(from[0] == '/');
                    text::lemma_first_index_is(from, '/', 0);
                    assert(first_of(from) =~= Seq::<char>::empty());
                    assert(rest_of(from) =~= rest_of(s));
                }
            }
            assert(body(from) == body(s));
        }
        let t = after(from, k);
        lemma_after(from, k);
        lemma_below_starts(s, base);
        lemma_body_trim(t);
        assert(components(below(s, base)) =~= body(s).skip(k as int));
        assert(components(s).skip(n as int) =~= body(s).skip(k as int));
    }
}

proof fn lemma_all_normal(cs: Seq<Seq<char>>)
    requires
        forall|i: int| 0 <= i < cs.len() ==> is_normal(#[trigger] cs[i]),
    ensures
        normals(cs) == cs,
    decreases cs.len(),
{
    if cs.len() == 0 {
        reveal(Seq::filter);
        assert(normals(cs) =~= cs);
    } else {
        let head = cs.drop_last();
        assert forall|i: int| 0 <= i < head.len() implies is_normal(#[trigger] head[i]) by {
            assert(head[i] == cs[i]);
        }
        lemma_all_normal(head);
        lemma_filter_push(head, cs.last());
        assert(head.push(cs.last()) =~= cs);
    }
}

/// A file stands below a directory, with nothing but entry names between.
pub open spec fn filed_under(path: Seq<char>, root: Seq<char>) -> bool {
    &&& under(path, root)
    &&& components(path).len() > components(root).len()
    &&& forall|i: int|
        components(root).len() <= i < components(path).len() ==> is_normal(
            #[trigger] components(path)[i],
        )
}

proof fn lemma_kept_names(library_root: Seq<char>, path: Seq<char>)
    requires
        filed_under(path, library_root),
    ensures
        kept_names(library_root, path) == components(path).skip(
            components(library_root).len() as int,
        ),
{
    let n = components(library_root).len() as int;
    let rel = below(path, library_root);
    law_below_is_the_rest(path, library_root);
    let names = components(path).skip(n);
    assert(rel.len() > 0) by {
        if rel.len() == 0 {
            text::lemma_first_index(rel, '/');
            assert(start(rel) =~= Seq::empty());
            assert(body(rel) =~= Seq::empty());
            assert(names.len() == 0);
        }
    }
    assert forall|i: int| 0 <= i < names.len() implies is_normal(#[trigger] names[i]) by {
        assert(names[i] == components(path)[n + i]);
    }
    lemma_all_normal(names);
}

/// Two files of a library are retained in two places, whatever their names: the
/// one never overwrites the other in the trash.
pub proof fn law_no_two_files_share_a_trash_path(
    trash_dir: Seq<char>,
    library_root: Seq<char>,
    p: Seq<char>,
    q: Seq<char>,
)
    requires
        filed_under(p, library_root),
        filed_under(q, library_root),
        !equivalent(p, q),
    ensures
        !equivalent(
            joined(trash_dir, safe_path(library_root, p)),
            joined(trash_dir, safe_path(library_root, q)),
        ),
{
    let n = components(library_root).len() as int;
    let (a, b) = (components(p), components(q));
    let t = components(trash_dir);
    lemma_kept_names(library_root, p);
    lemma_kept_names(library_root, q);
    law_trash_path_stays_inside(trash_dir, library_root, p);
    law_trash_path_stays_inside(trash_dir, library_root, q);
    if t + a.skip(n) == t + b.skip(n) {
        assert((t + a.skip(n)).skip(t.len() as int) =~= a.skip(n));
        assert((t + b.skip(n)).skip(t.len() as int) =~= b.skip(n));
        assert(a =~= a.take(n) + a.skip(n));
        assert(b =~= b.take(n) + b.skip(n));
    }
}

/// The text after the last separator is the final component, where there is one.
proof fn lemma_last_component(s: Seq<char>)
    requires
        body(s).len() > 0,
    ensures
        last_of(s) == body(s).last(),
        !last_of(s).contains('/'),
        !is_blank(last_of(s)),
{
    let t = trim_tail(s);
    lemma_trimmed(s);
    lemma_body_trim(s);
    text::lemma_last_index(t, '/');
    let i = text::last_index(t, '/');
    let seg = t.skip(i + 1);
    assert(!seg.contains('/')) by {
        if seg.contains('/') {
            let j = choose|j: int| 0 <= j < seg.len() && seg[j] == '/';
            assert(t[i + 1 + j] == '/');
        }
    }
    lemma_body_single(seg);
    if i >= 0 {
        assert(t =~= t.take(i).push('/') + seg);
        lemma_body_concat(t.take(i), seg);
        if is_blank(seg) {
            if t.len() > 1 {
                if seg.len() == 0 {
                    assert(t.last() == '/');
                } else {
                    assert(t.last() == seg[0]);
                    assert(t[t.len() - 2] == '/');
                }
            } else {
                assert(t.take(i) =~= Seq::<char>::empty());
                assert(seg =~= Seq::<char>::empty());
                assert(body(t.take(i)) =~= Seq::empty());
            }
        }
    } else {
        assert(t =~= seg);
    }
}

proof fn lemma_trimmed(s: Seq<char>)
    ensures
        ({
            let t = trim_tail(s);
            t.len() <= 1 || !(t.last() == '/' || (t.last() == '.' && t[t.len() - 2] == '/'))
        }),
    decreases s.len(),
{
    if s.len() > 1 && (s.last() == '/' || (s.last() == '.' && s[s.len() - 2] == '/')) {
        lemma_trimmed(s.drop_last());
    }
}

/// A name with its extension replaced.
pub open spec fn renamed(name: Seq<char>, ext: Seq<char>) -> Seq<char> {
    let base = match dot_of(name) {
        Some(d) => name.take(d),
        None => name,
    };
    if ext.len() == 0 {
        base
    } else {
        base.push('.') + ext
    }
}

/// Replacing an extension replaces the final component and nothing else.
proof fn lemma_with_extension(s: Seq<char>, ext: Seq<char>)
    requires
        body(s).len() > 0,
        last_of(s) != seq!['.', '.'],
        !ext.contains('/'),
    ensures
        body(with_extension(s, ext)) == body(s).drop_last() + (if is_blank(
            renamed(last_of(s), ext),
        ) {
            Seq::<Seq<char>>::empty()
        } else {
            seq![renamed(last_of(s), ext)]
        }),
        trim_tail(s).contains('/') || !is_blank(renamed(last_of(s), ext)) ==> start(
            with_extension(s, ext),
        ) == start(s),
        !trim_tail(s).contains('/') ==> with_extension(s, ext) == renamed(last_of(s), ext),
{
    let t = trim_tail(s);
    let m = with_extension(s, ext);
    let name = last_of(s);
    let new = renamed(name, ext);
    lemma_last_component(s);
    lemma_body_trim(s);
    lemma_start_trim(s);
    text::lemma_last_index(t, '/');
    text::lemma_last_index(name, '.');
    let i = text::last_index(t, '/');
    assert(m =~= t.take(i + 1) + new);
    assert(!new.contains('/')) by {
        if new.contains('/') {
            let j = choose|j: int| 0 <= j < new.len() && new[j] == '/';
            let base = match dot_of(name) {
                Some(d) => name.take(d),
                None => name,
            };
            if j < base.len() {
                assert(name[j] == '/');
                assert(name.contains('/'));
            } else if j > base.len() {
                assert(ext[j - base.len() - 1] == '/');
                assert(ext.contains('/'));
            }
        }
    }
    lemma_body_single(new);
    lemma_body_single(name);
    if i >= 0 {
        let dir = t.take(i);
        assert(t.contains(t[i]));
        assert(t =~= dir.push('/') + name);
        assert(m =~= dir.push('/') + new);
        lemma_body_concat(dir, name);
        lemma_body_concat(dir, new);
        assert(body(t).drop_last() =~= body(dir));
        text::lemma_first_index(t, '/');
        let k = text::first_index(t, '/');
        assert(k <= i);
        assert forall|j: int| 0 <= j < k implies m[j] != '/' by {
            assert(m[j] == t[j]);
        }
        text::lemma_first_index_is(m, '/', k);
        assert(first_of(m) =~= first_of(t));
        assert(m[0] == t[0]);
    } else {
        assert(t =~= name);
        assert(m =~= new);
        assert(body(t).drop_last() =~= Seq::empty());
        if !is_blank(new) {
            text::lemma_first_index_is(m, '/', m.len() as int);
            text::lemma_first_index_is(t, '/', t.len() as int);
            assert(first_of(m) =~= new);
            assert(first_of(t) =~= name);
            assert(new.contains(new[0]) && name.contains(name[0]));
            assert(start(m) =~= start(t));
        }
    }
}

/// Replacing the extension leaves a name that says nothing: the extension is
/// empty, and all that stands before the one that goes is `.`.
pub open spec fn vanishes(name: Seq<char>, ext: Seq<char>) -> bool {
    is_blank(renamed(name, ext))
}

proof fn lemma_joined_rest(out_root: Seq<char>, rel: Seq<char>)
    requires
        start(rel) == Seq::<Seq<char>>::empty(),
        body(rel).len() > 0,
    ensures
        components(joined(out_root, rel)) == components(out_root) + components(rel),
        body(joined(out_root, rel)).len() > 0,
        body(joined(out_root, rel)).last() == body(rel).last(),
        !trim_tail(joined(out_root, rel)).contains('/') ==> out_root.len() == 0,
{
    let j = joined(out_root, rel);
    assert(rel.len() > 0) by {
        if rel.len() == 0 {
            assert(body(rel).len() == 0);
        }
    }
    assert(rel[0] != '/') by {
        if rel[0] == '/' {
            assert(start(rel).len() == 1);
        }
    }
    lemma_body_join(out_root, rel);
    if out_root.len() == 0 {
        assert(j =~= rel);
        text::lemma_first_index(out_root, '/');
        assert(start(out_root) =~= Seq::empty());
        assert(body(out_root) =~= Seq::empty());
        assert(components(j) =~= components(out_root) + components(rel));
    } else {
        assert(components(j) =~= components(out_root) + components(rel));
        if !trim_tail(j).contains('/') {
            let k = if out_root.last() == '/' {
                out_root.len() - 1
            } else {
                out_root.len() as int
            };
            assert(j[k] == '/');
            assert(j.skip(k + 1) =~= rel);
            lemma_trim_keeps(j, k);
        }
    }
}

/// Trimming a path keeps a separator that something follows.
proof fn lemma_trim_keeps(s: Seq<char>, k: int)
    requires
        0 <= k < s.len(),
        s[k] == '/',
        body(s.skip(k + 1)).len() > 0,
    ensures
        trim_tail(s).contains('/'),
    decreases s.len(),
{
    let tail = s.skip(k + 1);
    assert(tail.len() > 0) by {
        if tail.len() == 0 {
            assert(body(tail).len() == 0);
        }
    }
    if s.len() > 1 && (s.last() == '/' || (s.last() == '.' && s[s.len() - 2] == '/')) {
        let t = s.drop_last();
        assert(t.skip(k + 1) =~= tail.drop_last());
        assert(body(tail.drop_last()) == body(tail)) by {
            if tail.len() == 1 {
                assert(!tail.contains('/') || tail[0] == '/');
                if tail[0] == '/' {
                    text::lemma_first_index_is(tail, '/', 0);
                    assert(first_of(tail) =~= Seq::<char>::empty());
                    assert(rest_of(tail) =~= Seq::<char>::empty());
                    assert(body(rest_of(tail)) =~= Seq::empty());
                } else {
                    assert(tail =~= seq!['.']);
                    lemma_body_single(tail);
                }
            } else {
                lemma_body_trim(tail);
                lemma_body_trim(tail.drop_last());
                assert(tail.last() == s.last());
                assert(tail[tail.len() - 2] == s[s.len() - 2]);
                assert(trim_tail(tail) == trim_tail(tail.drop_last()));
            }
        }
        lemma_trim_keeps(t, k);
    } else {
        assert(s.contains(s[k]));
    }
}

/// Mirroring an input into another root never lands on the input, but for two
/// things. Where the input root names nothing, an input that begins at `/` or
/// `.` says itself where it is, and must get another name. And where the empty
/// extension leaves nothing of the name, the output root must not be one level
/// deeper than the input root.
pub proof fn law_mirrored_output_is_not_the_input(
    input: Seq<char>,
    in_root: Seq<char>,
    out_root: Seq<char>,
    ext: Seq<char>,
)
    requires
        !equivalent(in_root, out_root),
        under(input, in_root),
        !equivalent(input, in_root),
        !ext.contains('/'),
        components(in_root).len() == 0 && start(input).len() == 1 ==> {
            &&& file_name(input) matches Some(name)
            &&& renamed(name, ext) != name
            &&& !vanishes(name, ext)
        },
        file_name(input) matches Some(name) && vanishes(name, ext) ==> components(out_root).len()
            != components(in_root).len() + 1,
    ensures
        !equivalent(input, mirrored(input, in_root, out_root, ext)),
{
    let n = components(in_root).len();
    if n == 0 && start(input).len() == 1 {
        lemma_mirrored_whole(input, in_root, out_root, ext);
    } else {
        assert(components(input).len() > n) by {
            if components(input).len() == n {
                assert(components(input).take(n as int) =~= components(input));
            }
        }
        lemma_mirrored_rest(input, in_root, out_root, ext);
    }
}

/// Where the input root names nothing, the name tells the output from the input.
proof fn lemma_mirrored_whole(
    input: Seq<char>,
    in_root: Seq<char>,
    out_root: Seq<char>,
    ext: Seq<char>,
)
    requires
        components(in_root).len() == 0,
        !ext.contains('/'),
        file_name(input) matches Some(name) && renamed(name, ext) != name && !vanishes(name, ext),
    ensures
        !equivalent(input, mirrored(input, in_root, out_root, ext)),
{
    let rel = trim_tail(input);
    let j = joined(out_root, rel);
    let m = with_extension(j, ext);
    let name = file_name(input)->0;
    lemma_file_name_is_last(input);
    lemma_body_trim(input);
    if rel.len() == 0 || rel[0] != '/' {
        lemma_body_join(out_root, rel);
    }
    assert(body(j).len() > 0 && body(j).last() == name);
    lemma_last_component(j);
    lemma_with_extension(j, ext);
    assert(body(m).last() == renamed(name, ext));
    assert(components(m).last() == renamed(name, ext));
    assert(components(input).last() == name);
}

/// The output has as many components below its root as the input below its own,
/// or one fewer where the name vanishes.
proof fn lemma_mirrored_rest(
    input: Seq<char>,
    in_root: Seq<char>,
    out_root: Seq<char>,
    ext: Seq<char>,
)
    requires
        !equivalent(in_root, out_root),
        under(input, in_root),
        components(input).len() > components(in_root).len(),
        !ext.contains('/'),
        components(in_root).len() == 0 ==> start(input).len() == 0,
        file_name(input) matches Some(name) && vanishes(name, ext) ==> components(out_root).len()
            != components(in_root).len() + 1,
    ensures
        !equivalent(input, mirrored(input, in_root, out_root, ext)),
{
    let n = components(in_root).len() as int;
    let rel = below(input, in_root);
    let whole = components(input);
    let r = whole.skip(n);
    let j = joined(out_root, rel);
    let m = with_extension(j, ext);
    let out = components(out_root);
    law_below_is_the_rest(input, in_root);
    assert(start(rel) == Seq::<Seq<char>>::empty()) by {
        if n == 0 {
            lemma_start_trim(input);
            assert(start(input) =~= Seq::empty());
        } else {
            lemma_below_starts(input, in_root);
        }
    }
    assert(components(rel) =~= body(rel));
    lemma_joined_rest(out_root, rel);
    lemma_last_component(j);
    let name = last_of(j);
    assert(name == r.last());
    if name == seq!['.', '.'] {
        assert(m == j);
        if components(m) == whole {
            lemma_same_front(out, r, whole, n);
        }
    } else {
        let new = renamed(name, ext);
        lemma_with_extension(j, ext);
        if is_blank(new) {
            lemma_last_is_name(input, n, r);
            if trim_tail(j).contains('/') {
                assert(start(m) == start(j));
                assert(components(m).len() == out.len() + r.len() - 1);
            } else {
                text::lemma_first_index(out_root, '/');
                assert(start(out_root) =~= Seq::empty());
                assert(body(out_root) =~= Seq::empty());
                assert(out =~= Seq::empty());
                assert(n > 0) by {
                    if n == 0 {
                        assert(components(in_root) =~= out);
                    }
                }
                assert(start(j).len() == 0) by {
                    assert(components(j).len() == r.len());
                    assert(body(j).len() == r.len()) by {
                        assert(j =~= rel);
                    }
                }
                assert(body(m).len() == r.len() - 1);
                assert(start(m).len() <= 1);
            }
        } else {
            let changed = r.drop_last() + seq![new];
            assert(components(m) =~= components(j).drop_last() + seq![new]);
            assert(components(m) =~= out + changed);
            if components(m) == whole {
                lemma_same_front(out, changed, whole, n);
            }
        }
    }
}

proof fn lemma_same_front(
    out: Seq<Seq<char>>,
    rest: Seq<Seq<char>>,
    whole: Seq<Seq<char>>,
    n: int,
)
    requires
        0 <= n <= whole.len(),
        rest.len() == whole.len() - n,
        out + rest == whole,
    ensures
        out == whole.take(n),
{
    assert(out =~= (out + rest).take(n));
}

/// The last of the components below a directory is the file name, where it
/// names an entry.
proof fn lemma_last_is_name(input: Seq<char>, n: int, r: Seq<Seq<char>>)
    requires
        0 <= n < components(input).len(),
        r == components(input).skip(n),
        is_normal(r.last()),
    ensures
        file_name(input) == Some(r.last()),
{
    assert(components(input).last() == r.last());
    assert(body(input).len() > 0) by {
        if body(input).len() == 0 {
            assert(components(input) =~= start(input));
            let c = start(input)[0];
            assert(c == seq!['/'] || c == seq!['.']);
            assert(seq!['/'].contains(seq!['/'][0]));
        }
    }
    assert(body(input).last() == r.last());
    lemma_last_component(input);
}

/// An extension is what follows the last dot of a name that has something before
/// it, whatever the directory; the stem is what stands before that dot.
pub proof fn law_what_an_extension_is(dir: Seq<char>, base: Seq<char>, ext: Seq<char>)
    requires
        base.len() > 0,
        is_normal(base.push('.') + ext),
        !ext.contains('.'),
    ensures
        extension(joined(dir, base.push('.') + ext)) == Some(ext),
        ext.len() > 0 ==> stem(joined(dir, base.push('.') + ext)) == base,
{
    let name = base.push('.') + ext;
    let k = base.len() as int;
    law_entry_keeps_its_name(dir, name);
    assert forall|i: int| k < i < name.len() implies name[i] != '.' by {
        assert(name[i] == ext[i - k - 1]);
        assert(ext.contains(ext[i - k - 1]));
    }
    text::lemma_last_index_is(name, '.', k);
    assert(name.skip(k + 1) =~= ext);
    assert(name.take(k) =~= base);
}

/// A name without a dot has no extension, and neither has one whose only dot is
/// its first character; either is its own stem.
pub proof fn law_what_has_no_extension(dir: Seq<char>, name: Seq<char>)
    requires
        is_normal(name),
        forall|i: int| 0 < i < name.len() ==> #[trigger] name[i] != '.',
    ensures
        extension(joined(dir, name)) is None,
        stem(joined(dir, name)) == name,
{
    law_entry_keeps_its_name(dir, name);
    text::lemma_last_index(name, '.');
    let d = text::last_index(name, '.');
    if d > 0 {
        assert(name[d] == '.');
    }
}

/// Joining puts one separator between two paths, and an absolute path replaces
/// what it is joined to.
pub proof fn law_what_joining_does(a: Seq<char>, b: Seq<char>)
    ensures
        b.len() > 0 && b[0] == '/' ==> joined(a, b) == b,
        !(b.len() > 0 && b[0] == '/') && a.len() > 0 && a.last() != '/' ==> joined(a, b) == a
            + seq!['/'] + b,
        !(b.len() > 0 && b[0] == '/') && (a.len() == 0 || a.last() == '/') ==> joined(a, b) == a + b,
{
    assert(a.push('/') + b =~= a + seq!['/'] + b);
}

/// A separator at the end of a path, or two for one within it, does not make it
/// another path.
pub proof fn law_separators_make_no_difference(a: Seq<char>, b: Seq<char>)
    requires
        a.len() > 0,
        a != seq!['.'],
    ensures
        equivalent(a, a),
        equivalent(a, b) ==> equivalent(b, a),
        body(a.push('/')) == body(a),
        body(a.push('/').push('/') + b) == body(a.push('/') + b),
{
    lemma_body_concat(a, Seq::empty());
    assert(a.push('/') + Seq::<char>::empty() =~= a.push('/'));
    assert(body(Seq::<char>::empty()).len() == 0);
    assert(body(a) + body(Seq::<char>::empty()) =~= body(a));
    lemma_body_concat(a.push('/'), b);
    lemma_body_concat(a, b);
}

/// An output beside its input is called after it: its stem, `_transcoded`, and
/// the new extension.
pub proof fn law_how_an_output_is_called(input: Seq<char>, ext: Seq<char>)
    ensures
        suffixed_name(input, ext) == stem(input) + "_transcoded."@ + ext,
        parent(input) matches Some(p) ==> suffixed(input, ext) == joined(
            p,
            stem(input) + "_transcoded."@ + ext,
        ),
        parent(input) is None ==> suffixed(input, ext) == joined(
            "."@,
            stem(input) + "_transcoded."@ + ext,
        ),
{
}

/// A separator or a `/.` at the end is trimmed, and trimming does not make a path
/// another one.
pub proof fn law_trimming_keeps_the_path(s: Seq<char>)
    ensures
        equivalent(trim_tail(s), s),
        trim_tail(s).len() > 1 ==> trim_tail(s).last() != '/',
        trim_tail(s).is_prefix_of(s),
{
    lemma_body_trim(s);
    lemma_start_trim(s);
    lemma_trimmed(s);
    lemma_trim_prefix(s);
}

proof fn lemma_trim_prefix(s: Seq<char>)
    ensures
        trim_tail(s).is_prefix_of(s),
    decreases s.len(),
{
    if s.len() > 1 && (s.last() == '/' || (s.last() == '.' && s[s.len() - 2] == '/')) {
        lemma_trim_prefix(s.drop_last());
    }
}

/// The parent of an entry is the directory it is in; the root has none, and
/// neither has a path that is empty.
pub proof fn law_the_parent_is_the_directory(dir: Seq<char>, name: Seq<char>)
    requires
        is_normal(name),
    ensures
        dir.len() > 0 && dir.last() != '/' ==> parent(joined(dir, name)) == Some(trim_tail(dir)),
        dir == seq!['/'] ==> parent(joined(dir, name)) == Some(seq!['/']),
        dir.len() == 0 ==> parent(joined(dir, name)) == Some(Seq::<char>::empty()),
        parent(seq!['/']) is None,
        parent(Seq::empty()) is None,
{
    law_entry_keeps_its_name(dir, name);
    let t = joined(dir, name);
    if name[0] == '/' {
        assert(name.contains('/'));
    }
    let k: int = t.len() - name.len() - 1;
    assert forall|i: int| k < i < t.len() implies t[i] != '/' by {
        assert(t[i] == name[i - k - 1]);
        assert(name.contains(name[i - k - 1]));
    }
    text::lemma_last_index_is(t, '/', k);
    if dir.len() > 0 && dir.last() != '/' {
        assert(t.take(k) =~= dir);
    }
    if dir == seq!['/'] {
        assert(t[1] == name[0]);
    }
    if dir.len() == 0 {
        assert(t =~= name);
        assert(parent(t) == Some(Seq::<char>::empty()));
    }
    assert(trim_tail(seq!['/']) =~= seq!['/']);
}

/// What is kept of a replaced file's place: where it stands in the library, all
/// of it; where it does not, its name; and where it has none, a name that says
/// so.
pub proof fn law_what_is_kept_of_a_place(library_root: Seq<char>, final_path: Seq<char>)
    ensures
        filed_under(final_path, library_root) ==> kept_names(library_root, final_path)
            == components(final_path).skip(components(library_root).len() as int),
        !under(final_path, library_root) ==> (file_name(final_path) matches Some(name)
            ==> kept_names(library_root, final_path) == seq![name]),
        !under(final_path, library_root) && file_name(final_path) is None ==> kept_names(
            library_root,
            final_path,
        ) == seq!["recovered"@],
{
    if filed_under(final_path, library_root) {
        lemma_kept_names(library_root, final_path);
    } else if !under(final_path, library_root) {
        let name = match file_name(final_path) {
            Some(n) => n,
            None => "recovered"@,
        };
        reveal_strlit("recovered");
        assert(is_normal("recovered"@)) by {
            assert("recovered"@.len() == 9);
        }
        if file_name(final_path) is Some {
            lemma_file_name_is_last(final_path);
        }
        assert(is_normal(name));
        if name[0] == '/' {
            assert(name.contains('/'));
        }
        lemma_body_single(name);
        text::lemma_first_index(name, '/');
        let k = text::first_index(name, '/');
        if k < name.len() {
            assert(name.contains(name[k]));
        }
        assert(first_of(name) =~= name);
        assert(components(name) =~= seq![name]);
        lemma_all_normal(seq![name]);
    }
}

} // verus!
