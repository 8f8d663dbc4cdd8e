//! `{{name}}` placeholder substitution.

use vstd::prelude::*;

verus! {

/// The text `{{key}}`.
pub open spec fn placeholder(key: Seq<char>) -> Seq<char> {
    seq!['{', '{'] + key + seq!['}', '}']
}

/// `s` begins with `p`.
pub open spec fn starts_with(s: Seq<char>, p: Seq<char>) -> bool {
    p.len() <= s.len() && s.subrange(0, p.len() as int) == p
}

/// `j` is the first binding whose placeholder begins `s`. Where two
/// bindings share a key, the first one counts.
pub open spec fn placeholder_at(s: Seq<char>, bindings: Seq<(Seq<char>, Seq<char>)>, j: int) -> bool {
    &&& 0 <= j < bindings.len()
    &&& starts_with(s, placeholder(bindings[j].0))
    &&& forall|k: int| 0 <= k < j ==> !starts_with(s, placeholder(#[trigger] bindings[k].0))
}

/// `s` with each placeholder of a bound key replaced by its value, in one
/// scan from left to right: at each position a placeholder is replaced and
/// skipped, or one character is kept. Inserted values are never scanned,
/// and placeholders of unknown keys stay as they are.
pub open spec fn expand(s: Seq<char>, bindings: Seq<(Seq<char>, Seq<char>)>) -> Seq<char>
    decreases s.len(),
{
    if s.len() == 0 {
        s
    } else if exists|j: int| placeholder_at(s, bindings, j) {
        let j = choose|j: int| placeholder_at(s, bindings, j);
        bindings[j].1 + expand(
            s.subrange(placeholder(bindings[j].0).len() as int, s.len() as int),
            bindings,
        )
    } else {
        seq![s[0]] + expand(s.subrange(1, s.len() as int), bindings)
    }
}

/// The bindings of a context, as character sequences.
pub open spec fn bindings_view(context: Seq<(&str, &str)>) -> Seq<(Seq<char>, Seq<char>)> {
    context.map_values(|b: (&str, &str)| (b.0@, b.1@))
}

fn chars_of(s: &str) -> (r: Vec<char>)
    ensures
        r@ == s@,
{
    let n = s.unicode_len();
    let mut r: Vec<char> = Vec::new();
    let mut i: usize = 0;
    while i < n
        invariant
            n == s@.len(),
            i <= n,
            r@ == s@.subrange(0, i as int),
        decreases n - i,
    {
        r.push(s.get_char(i));
        i += 1;
        assert(r@ =~= s@.subrange(0, i as int));
    }
    assert(r@ =~= s@);
    r
}

fn placeholder_chars(key: &str) -> (r: Vec<char>)
    ensures
        r@ == placeholder(key@),
{
    let k = chars_of(key);
    let mut r: Vec<char> = vec!['{', '{'];
    let mut i: usize = 0;
    while i < k.len()
        invariant
            i <= k.len(),
            r@ == seq!['{', '{'] + k@.subrange(0, i as int),
        decreases k.len() - i,
    {
        r.push(k[i]);
        i += 1;
        assert(r@ =~= seq!['{', '{'] + k@.subrange(0, i as int));
    }
    r.push('}');
    r.push('}');
    assert(r@ =~= placeholder(key@));
    r
}

fn occurs_at(t: &Vec<char>, pat: &Vec<char>, i: usize) -> (r: bool)
    requires
        i + pat.len() <= t.len(),
    ensures
        r == (t@.subrange(i as int, i + pat.len()) == pat@),
{
    let mut j: usize = 0;
    while j < pat.len()
        invariant
            i + pat.len() <= t.len(),
            j <= pat.len(),
            t@.subrange(i as int, i + j) == pat@.subrange(0, j as int),
        decreases pat.len() - j,
    {
        if t[i + j] != pat[j] {
            assert(t@.subrange(i as int, i + pat.len())[j as int] != pat@[j as int]);
            return false;
        }
        j += 1;
        assert(t@.subrange(i as int, i + j) =~= pat@.subrange(0, j as int));
    }
    assert(pat@.subrange(0, j as int) =~= pat@);
    true
}

proof fn lemma_placeholder_unique(s: Seq<char>, bindings: Seq<(Seq<char>, Seq<char>)>, j: int)
    requires
        placeholder_at(s, bindings, j),
    ensures
        (choose|k: int| placeholder_at(s, bindings, k)) == j,
{
    let k = choose|k: int| placeholder_at(s, bindings, k);
    assert(placeholder_at(s, bindings, k));
    if k < j {
        assert(!starts_with(s, placeholder(bindings[k].0)));
    } else if k > j {
        assert(!starts_with(s, placeholder(bindings[j].0)));
    }
}

/// The first binding whose placeholder occurs in `t` at `i`.
fn binding_at(t: &Vec<char>, pats: &Vec<Vec<char>>, i: usize, bindings: Ghost<Seq<(Seq<char>, Seq<char>)>>) -> (r: Option<usize>)
    requires
        i <= t.len(),
        pats.len() == bindings@.len(),
        forall|j: int| 0 <= j < pats.len() ==> (#[trigger] pats@[j])@ == placeholder(bindings@[j].0),
    ensures
        match r {
            Some(j) => placeholder_at(t@.subrange(i as int, t.len() as int), bindings@, j as int),
            None => !exists|j: int| placeholder_at(t@.subrange(i as int, t.len() as int), bindings@, j),
        },
{
    let ghost rest = t@.subrange(i as int, t.len() as int);
    let mut j: usize = 0;
    while j < pats.len()
        invariant
            i <= t.len(),
            rest == t@.subrange(i as int, t.len() as int),
            j <= pats.len(),
            pats.len() == bindings@.len(),
            forall|k: int| 0 <= k < pats.len() ==> (#[trigger] pats@[k])@ == placeholder(bindings@[k].0),
            forall|k: int| 0 <= k < j ==> !starts_with(rest, placeholder(#[trigger] bindings@[k].0)),
        decreases pats.len() - j,
    {
        let p = &pats[j];
        assert(p@ == placeholder(bindings@[j as int].0));
        if p.len() <= t.len() - i {
            let hit = occurs_at(t, p, i);
            assert(rest.subrange(0, p.len() as int) =~= t@.subrange(i as int, i + p.len()));
            if hit {
                return Some(j);
            }
        }
        j += 1;
    }
    None
}

/// `template_str` with `{{key}}` replaced by `value` for each `(key, value)`
/// of `context`, in one scan from left to right; inserted values are not
/// scanned again and placeholders of unknown keys stay as they are. A key
/// given twice is bound by its first entry.
pub fn template_string(template_str: &str, context: &Vec<(&str, &str)>) -> (r: String)
    ensures
        r@ == expand(template_str@, bindings_view(context@)),
{
    let ghost b = bindings_view(context@);
    let ghost s = template_str@;
    let mut pats: Vec<Vec<char>> = Vec::new();
    let mut k: usize = 0;
    while k < context.len()
        invariant
            k <= context.len(),
            b == bindings_view(context@),
            pats.len() == k,
            forall|j: int| 0 <= j < k ==> (#[trigger] pats@[j])@ == placeholder(b[j].0),
        decreases context.len() - k,
    {
        pats.push(placeholder_chars(context[k].0));
        k += 1;
    }
    let t = chars_of(template_str);
    let n = t.len();
    let mut out = String::new();
    let mut i: usize = 0;
    let mut start: usize = 0;
    assert(s.subrange(0, n as int) =~= s);
    assert(out@ + s.subrange(0, 0) + expand(s, b) =~= expand(s, b));
    while i < n
        invariant
            n == t.len(),
            t@ == s,
            s == template_str@,
            b == bindings_view(context@),
            pats.len() == b.len(),
            forall|j: int| 0 <= j < pats.len() ==> (#[trigger] pats@[j])@ == placeholder(b[j].0),
            start <= i <= n,
            out@ + s.subrange(start as int, i as int) + expand(s.subrange(i as int, n as int), b)
                == expand(s, b),
        decreases n - i,
    {
        let ghost rest = s.subrange(i as int, n as int);
        match binding_at(&t, &pats, i, Ghost(b)) {
            Some(j) => {
                proof {
                    lemma_placeholder_unique(rest, b, j as int);
                }
                let m = pats[j].len();
                assert(m == placeholder(b[j as int].0).len());
                assert(rest.subrange(m as int, rest.len() as int) =~= s.subrange(i + m, n as int));
                let piece = template_str.substring_char(start, i);
                out.append(piece);
                out.append(context[j].1);
                assert(context@[j as int].1@ == b[j as int].1);
                i += m;
                start = i;
                assert(s.subrange(start as int, i as int) =~= Seq::<char>::empty());
                assert(out@ + s.subrange(start as int, i as int) + expand(s.subrange(i as int, n as int), b)
                    =~= expand(s, b));
            },
            None => {
                assert(rest.subrange(1, rest.len() as int) =~= s.subrange(i + 1, n as int));
                assert(s.subrange(start as int, i + 1) =~= s.subrange(start as int, i as int) + seq![rest[0]]);
                i += 1;
                assert(out@ + s.subrange(start as int, i as int) + expand(s.subrange(i as int, n as int), b)
                    =~= expand(s, b));
            },
        }
    }
    let piece = template_str.substring_char(start, n);
    out.append(piece);
    assert(s.subrange(n as int, n as int) =~= Seq::<char>::empty());
    assert(out@ =~= expand(s, b));
    out
}

} // verus!
