//! Ordered substitution of `{{name}}` placeholders.
use vstd::prelude::*;

verus! {

/// The views of a sequence of strings.
pub open spec fn strs(v: Seq<String>) -> Seq<Seq<char>> {
    v.map_values(|s: String| s@)
}

/// `s` with every occurrence of `pat` replaced by `rep`, scanning left to
/// right and never matching inside a text that was just inserted.
pub open spec fn replace_all(s: Seq<char>, pat: Seq<char>, rep: Seq<char>) -> Seq<char>
    decreases s.len(),
{
    if s.len() == 0 {
        s
    } else if 0 < pat.len() <= s.len() && s.subrange(0, pat.len() as int) == pat {
        rep + replace_all(s.subrange(pat.len() as int, s.len() as int), pat, rep)
    } else {
        seq![s[0]] + replace_all(s.drop_first(), pat, rep)
    }
}

/// The placeholder that stands for the slot `name` in a template.
pub open spec fn placeholder(name: Seq<char>) -> Seq<char> {
    "{{"@ + name + "}}"@
}

/// One resolution step: every template after index `i` gets the text of
/// template `i` in place of the placeholder of slot `i`.
pub open spec fn resolve_step(names: Seq<Seq<char>>, t: Seq<Seq<char>>, i: int) -> Seq<Seq<char>> {
    Seq::new(
        t.len(),
        |j: int|
            if j > i {
                replace_all(t[j], placeholder(names[i]), t[i])
            } else {
                t[j]
            },
    )
}

/// The templates after the first `k` resolution steps.
pub open spec fn resolve_upto(names: Seq<Seq<char>>, t: Seq<Seq<char>>, k: nat) -> Seq<Seq<char>>
    decreases k,
{
    if k == 0 {
        t
    } else {
        resolve_step(names, resolve_upto(names, t, (k - 1) as nat), k - 1)
    }
}

/// The templates with every slot resolved, in declared order.
pub open spec fn resolve(names: Seq<Seq<char>>, t: Seq<Seq<char>>) -> Seq<Seq<char>> {
    resolve_upto(names, t, t.len())
}

proof fn lemma_resolve_upto_len(names: Seq<Seq<char>>, t: Seq<Seq<char>>, k: nat)
    ensures
        resolve_upto(names, t, k).len() == t.len(),
    decreases k,
{
    if k > 0 {
        lemma_resolve_upto_len(names, t, (k - 1) as nat);
    }
}

proof fn lemma_placeholder_len(name: Seq<char>)
    ensures
        placeholder(name).len() == name.len() + 4,
{
    reveal_strlit("{{");
    reveal_strlit("}}");
}

/// Resolution keeps the number of templates.
pub proof fn lemma_resolve_len(names: Seq<Seq<char>>, t: Seq<Seq<char>>)
    ensures
        resolve(names, t).len() == t.len(),
{
    lemma_resolve_upto_len(names, t, t.len());
}

/// Whether `pat` occurs in `s` at index `i`.
fn occurs_at(s: &str, n: usize, pat: &str, m: usize, i: usize) -> (r: bool)
    requires
        n == s@.len(),
        m == pat@.len(),
        i <= n,
    ensures
        r == (i + m <= n && s@.subrange(i as int, i + m) == pat@),
{
    if m > n - i {
        return false;
    }
    let mut j: usize = 0;
    while j < m
        invariant
            n == s@.len(),
            m == pat@.len(),
            i + m <= n,
            j <= m,
            forall|k: int| 0 <= k < j ==> s@[i + k] == pat@[k],
        decreases m - j,
    {
        if s.get_char(i + j) != pat.get_char(j) {
            assert(s@.subrange(i as int, i + m)[j as int] != pat@[j as int]);
            return false;
        }
        j = j + 1;
    }
    assert(s@.subrange(i as int, i + m) =~= pat@);
    true
}

/// Replace every occurrence of `pat` in `s` by `rep`, left to right.
pub fn replace_str(s: &str, pat: &str, rep: &str) -> (r: String)
    requires
        pat@.len() > 0,
    ensures
        r@ == replace_all(s@, pat@, rep@),
{
    let n = s.unicode_len();
    let m = pat.unicode_len();
    let mut out = String::new();
    let mut i: usize = 0;
    assert(s@.subrange(0, n as int) =~= s@);
    while i < n
        invariant
            n == s@.len(),
            m == pat@.len(),
            m > 0,
            i <= n,
            replace_all(s@, pat@, rep@) == out@ + replace_all(
                s@.subrange(i as int, n as int),
                pat@,
                rep@,
            ),
        decreases n - i,
    {
        let rest = Ghost(s@.subrange(i as int, n as int));
        if occurs_at(s, n, pat, m, i) {
            assert(rest@.subrange(0, m as int) =~= s@.subrange(i as int, i + m));
            assert(rest@.subrange(m as int, rest@.len() as int) =~= s@.subrange(
                i + m,
                n as int,
            ));
            out.append(rep);
            i = i + m;
        } else {
            if m <= n - i {
                assert(rest@.subrange(0, m as int) =~= s@.subrange(i as int, i + m));
            }
            assert(rest@.drop_first() =~= s@.subrange(i + 1, n as int));
            let c = s.substring_char(i, i + 1);
            assert(c@ =~= seq![rest@[0]]);
            out.append(c);
            i = i + 1;
        }
    }
    assert(s@.subrange(n as int, n as int) =~= Seq::<char>::empty());
    out
}

/// The placeholder text `{{name}}`.
pub fn placeholder_of(name: &str) -> (r: String)
    ensures
        r@ == placeholder(name@),
{
    let mut p = String::from_str("{{");
    p.append(name);
    p.append("}}");
    p
}

/// Resolve each template in turn: after template `index` is complete, its
/// text replaces every `{{names[index]}}` in the templates after it.
pub fn replace_templates_with_types(names: &[String], templates: &[String]) -> (r: Vec<String>)
    requires
        names@.len() == templates@.len(),
    ensures
        strs(r@) == resolve(strs(names@), strs(templates@)),
{
    let ghost nv = strs(names@);
    let ghost tv = strs(templates@);
    let ntypes = templates.len();
    let mut complete_types: Vec<String> = Vec::new();
    let mut k: usize = 0;
    while k < ntypes
        invariant
            k <= ntypes,
            ntypes == templates@.len(),
            tv == strs(templates@),
            strs(complete_types@) == tv.take(k as int),
        decreases ntypes - k,
    {
        let ghost prev = complete_types@;
        let t = templates[k].clone();
        complete_types.push(t);
        assert(complete_types@ == prev.push(t));
        assert(strs(complete_types@) =~= strs(prev).push(t@));
        assert(tv[k as int] == t@);
        assert(strs(complete_types@) =~= tv.take(k + 1));
        k = k + 1;
    }
    assert(tv.take(ntypes as int) =~= tv);
    let mut index: usize = 0;
    while index < ntypes
        invariant
            index <= ntypes,
            ntypes == templates@.len(),
            ntypes == names@.len(),
            nv == strs(names@),
            tv == strs(templates@),
            complete_types@.len() == ntypes,
            strs(complete_types@) == resolve_upto(nv, tv, index as nat),
        decreases ntypes - index,
    {
        let ghost before = strs(complete_types@);
        let pat = placeholder_of(names[index].as_str());
        proof {
            lemma_placeholder_len(nv[index as int]);
        }
        let replace_type = complete_types[index].clone();
        let mut j: usize = index + 1;
        while j < ntypes
            invariant
                index < j <= ntypes,
                ntypes == names@.len(),
                complete_types@.len() == ntypes,
                before.len() == ntypes,
                pat@ == placeholder(nv[index as int]),
                pat@.len() > 0,
                replace_type@ == before[index as int],
                nv == strs(names@),
                forall|q: int|
                    0 <= q < ntypes ==> #[trigger] strs(complete_types@)[q] == if index < q < j {
                        replace_all(before[q], pat@, replace_type@)
                    } else {
                        before[q]
                    },
            decreases ntypes - j,
        {
            assert(strs(complete_types@)[j as int] == before[j as int]);
            let updated = replace_str(complete_types[j].as_str(), pat.as_str(), replace_type.as_str());
            let ghost prev = complete_types@;
            complete_types.set(j, updated);
            assert(complete_types@ == prev.update(j as int, updated));
            assert(strs(complete_types@) =~= strs(prev).update(j as int, updated@));
            j = j + 1;
        }
        assert(strs(complete_types@) =~= resolve_step(nv, before, index as int));
        index = index + 1;
    }
    proof {
        lemma_resolve_upto_len(nv, tv, ntypes as nat);
    }
    complete_types
}

} // verus!
