//! The sharing list: an ordered, duplicate-free list of identities, and its
//! comma-delimited text form used at the storage boundary.

use vstd::prelude::*;
use vstd::string::*;
use crate::identity::{is_identity, is_hex_char};

verus! {

/// The text of each string in a sequence.
pub open spec fn views(v: Seq<String>) -> Seq<Seq<char>> {
    v.map_values(|s: String| s@)
}

/// The entries joined by single commas; the empty list joins to empty text.
pub open spec fn join(ids: Seq<Seq<char>>) -> Seq<char>
    decreases ids.len(),
{
    if ids.len() == 0 {
        seq![]
    } else if ids.len() == 1 {
        ids[0]
    } else {
        join(ids.drop_last()) + seq![','] + ids.last()
    }
}

/// The comma-separated fields of a text; there is always at least one.
pub open spec fn split_fields(s: Seq<char>) -> Seq<Seq<char>>
    decreases s.len(),
{
    if s.len() == 0 {
        seq![seq![]]
    } else {
        let p = split_fields(s.drop_last());
        if s.last() == ',' {
            p.push(seq![])
        } else {
            p.update(p.len() - 1, p.last().push(s.last()))
        }
    }
}

/// What a stored text decodes to: nothing for empty text, else its fields.
pub open spec fn split_list(s: Seq<char>) -> Seq<Seq<char>> {
    if s.len() == 0 {
        seq![]
    } else {
        split_fields(s)
    }
}

pub open spec fn no_comma(s: Seq<char>) -> bool {
    forall|i: int| 0 <= i < s.len() ==> s[i] != ','
}

/// A well-formed sharing list: identities, none of them twice.
pub open spec fn is_sharing_list(ids: Seq<Seq<char>>) -> bool {
    ids.no_duplicates() && forall|i: int| 0 <= i < ids.len() ==> is_identity(#[trigger] ids[i])
}

/// The list after granting access to `g`: unchanged if `g` is already there.
pub open spec fn granted(list: Seq<Seq<char>>, g: Seq<char>) -> Seq<Seq<char>> {
    if list.contains(g) {
        list
    } else {
        list.push(g)
    }
}

/// The list after granting to each of `gs` in turn.
pub open spec fn granted_all(list: Seq<Seq<char>>, gs: Seq<Seq<char>>) -> Seq<Seq<char>>
    decreases gs.len(),
{
    if gs.len() == 0 {
        list
    } else {
        granted(granted_all(list, gs.drop_last()), gs.last())
    }
}

proof fn lemma_split_fields_len(s: Seq<char>)
    ensures
        split_fields(s).len() >= 1,
    decreases s.len(),
{
    if s.len() > 0 {
        lemma_split_fields_len(s.drop_last());
    }
}

proof fn lemma_split_plain_suffix(x: Seq<char>, b: Seq<char>)
    requires
        no_comma(b),
    ensures
        split_fields(x + b) == split_fields(x).update(
            split_fields(x).len() - 1,
            split_fields(x).last() + b,
        ),
    decreases b.len(),
{
    lemma_split_fields_len(x);
    let p = split_fields(x);
    if b.len() == 0 {
        assert(x + b =~= x);
        assert(p.last() + b =~= p.last());
        assert(p.update(p.len() - 1, p.last()) =~= p);
    } else {
        let b0 = b.drop_last();
        assert(no_comma(b0));
        lemma_split_plain_suffix(x, b0);
        assert((x + b).drop_last() =~= x + b0);
        assert((x + b).last() == b.last());
        assert((p.last() + b0).push(b.last()) =~= p.last() + b);
        assert(split_fields(x + b) =~= p.update(p.len() - 1, p.last() + b));
    }
}

proof fn lemma_split_comma(x: Seq<char>)
    ensures
        split_fields(x + seq![',']) == split_fields(x).push(seq![]),
{
    assert((x + seq![',']).drop_last() =~= x);
}

proof fn lemma_split_join(ids: Seq<Seq<char>>)
    requires
        ids.len() >= 1,
        forall|i: int| 0 <= i < ids.len() ==> no_comma(#[trigger] ids[i]),
    ensures
        split_fields(join(ids)) == ids,
    decreases ids.len(),
{
    let e: Seq<char> = seq![];
    if ids.len() == 1 {
        assert(e + ids[0] =~= ids[0]);
        lemma_split_plain_suffix(e, ids[0]);
        assert(seq![e].update(0, e + ids[0]) =~= ids);
    } else {
        let front = ids.drop_last();
        lemma_split_join(front);
        let x = join(front) + seq![','];
        lemma_split_comma(join(front));
        assert(no_comma(ids.last()));
        lemma_split_plain_suffix(x, ids.last());
        assert(e + ids.last() =~= ids.last());
        assert(front.push(e).update(front.len() as int, ids.last()) =~= ids);
    }
}

proof fn lemma_identity_no_comma(s: Seq<char>)
    requires
        is_identity(s),
    ensures
        no_comma(s),
{
    assert forall|i: int| 0 <= i < s.len() implies s[i] != ',' by {
        assert(is_hex_char(s[i]));
    }
}

/// Decoding the encoding of a well-formed sharing list gives the list back,
/// and the empty list encodes to empty text.
pub proof fn lemma_decode_encode(ids: Seq<Seq<char>>)
    requires
        is_sharing_list(ids),
    ensures
        split_list(join(ids)) == ids,
        ids.len() == 0 ==> join(ids).len() == 0,
{
    if ids.len() > 0 {
        assert forall|i: int| 0 <= i < ids.len() implies no_comma(#[trigger] ids[i]) by {
            lemma_identity_no_comma(ids[i]);
        }
        lemma_split_join(ids);
        assert(join(ids).len() > 0);
    }
}

/// Granting the same identity twice leaves the list as granting it once.
pub proof fn lemma_grant_idempotent(list: Seq<Seq<char>>, g: Seq<char>)
    ensures
        granted(granted(list, g), g) == granted(list, g),
{
    if !list.contains(g) {
        assert(list.push(g)[list.len() as int] == g);
    }
}

/// Granting keeps a list free of duplicates and always leaves `g` in it.
pub proof fn lemma_grant_keeps_list(list: Seq<Seq<char>>, g: Seq<char>)
    requires
        list.no_duplicates(),
    ensures
        granted(list, g).no_duplicates(),
        granted(list, g).contains(g),
        forall|x: Seq<char>| list.contains(x) ==> granted(list, g).contains(x),
{
    if !list.contains(g) {
        let r = list.push(g);
        assert(r[list.len() as int] == g);
        assert forall|x: Seq<char>| list.contains(x) implies r.contains(x) by {
            let k = choose|k: int| 0 <= k < list.len() && list[k] == x;
            assert(r[k] == x);
        }
    }
}

/// Granting to several identities one after another never loses a grant:
/// every one of them ends up in the list, exactly once, and nothing that was
/// there before is dropped.
pub proof fn lemma_grants_accumulate(list: Seq<Seq<char>>, gs: Seq<Seq<char>>)
    requires
        list.no_duplicates(),
    ensures
        granted_all(list, gs).no_duplicates(),
        forall|i: int| 0 <= i < gs.len() ==> granted_all(list, gs).contains(#[trigger] gs[i]),
        forall|x: Seq<char>| list.contains(x) ==> granted_all(list, gs).contains(x),
    decreases gs.len(),
{
    if gs.len() > 0 {
        let front = gs.drop_last();
        lemma_grants_accumulate(list, front);
        let mid = granted_all(list, front);
        lemma_grant_keeps_list(mid, gs.last());
        assert forall|i: int| 0 <= i < gs.len() implies granted_all(list, gs).contains(
            #[trigger] gs[i],
        ) by {
            if i < gs.len() - 1 {
                assert(front[i] == gs[i]);
            }
        }
    }
}

/// Granting in turn to distinct identities that are not yet in the list
/// appends them all, in the order of the grants.
pub proof fn lemma_grants_in_order(list: Seq<Seq<char>>, gs: Seq<Seq<char>>)
    requires
        gs.no_duplicates(),
        forall|i: int| 0 <= i < gs.len() ==> !list.contains(#[trigger] gs[i]),
    ensures
        granted_all(list, gs) == list + gs,
    decreases gs.len(),
{
    if gs.len() == 0 {
        assert(list + gs =~= list);
    } else {
        let front = gs.drop_last();
        assert forall|i: int| 0 <= i < front.len() implies !list.contains(#[trigger] front[i]) by {
            assert(front[i] == gs[i]);
        }
        lemma_grants_in_order(list, front);
        let g = gs.last();
        assert(!(list + front).contains(g)) by {
            if (list + front).contains(g) {
                let k = choose|k: int| 0 <= k < (list + front).len() && (list + front)[k] == g;
                if k < list.len() {
                    assert(list[k] == g);
                } else {
                    assert(gs[k - list.len()] == gs[gs.len() - 1]);
                }
            }
        }
        assert((list + front).push(g) =~= list + gs);
    }
}

/// Joins the identities with commas.
pub fn encode(ids: &Vec<String>) -> (r: String)
    ensures
        r@ == join(views(ids@)),
{
    let mut out = String::new();
    let mut i: usize = 0;
    while i < ids.len()
        invariant
            i <= ids.len(),
            out@ == join(views(ids@).subrange(0, i as int)),
        decreases ids.len() - i,
    {
        proof {
            reveal_strlit(",");
        }
        if i > 0 {
            out.append(",");
        }
        out.append(ids[i].as_str());
        proof {
            let v = views(ids@);
            assert(v.subrange(0, i + 1).drop_last() =~= v.subrange(0, i as int));
            if i == 0 {
                assert(out@ =~= v.subrange(0, 1)[0]);
            }
        }
        i += 1;
    }
    proof {
        assert(views(ids@).subrange(0, ids.len() as int) =~= views(ids@));
    }
    out
}

/// Splits stored text on commas; empty text is the empty list.
pub fn decode(text: &str) -> (r: Vec<String>)
    ensures
        views(r@) == split_list(text@),
{
    let n = text.unicode_len();
    let mut parts: Vec<String> = Vec::new();
    if n == 0 {
        proof {
            assert(views(parts@) =~= seq![]);
        }
        return parts;
    }
    let mut start: usize = 0;
    let mut i: usize = 0;
    proof {
        assert(text@.subrange(0, 0) =~= seq![]);
        assert(views(parts@).push(text@.subrange(0, 0)) =~= seq![seq![]]);
    }
    while i < n
        invariant
            n == text@.len(),
            start <= i <= n,
            views(parts@).push(text@.subrange(start as int, i as int)) == split_fields(
                text@.subrange(0, i as int),
            ),
        decreases n - i,
    {
        let c = text.get_char(i);
        let ghost before = parts@;
        proof {
            assert(text@.subrange(0, i + 1).drop_last() =~= text@.subrange(0, i as int));
        }
        if c == ',' {
            let field = text.substring_char(start, i);
            parts.push(String::from_str(field));
            proof {
                assert(views(parts@) =~= views(before).push(field@));
                assert(text@.subrange(i + 1, i + 1) =~= seq![]);
            }
            start = i + 1;
        } else {
            proof {
                assert(text@.subrange(start as int, i + 1) =~= text@.subrange(
                    start as int,
                    i as int,
                ).push(c));
            }
        }
        i += 1;
    }
    let field = text.substring_char(start, n);
    let ghost before = parts@;
    parts.push(String::from_str(field));
    proof {
        assert(views(parts@) =~= views(before).push(field@));
        assert(text@.subrange(0, n as int) =~= text@);
    }
    parts
}

/// Adds `grantee` at the end of the list unless it is already there.
pub fn grant(list: &mut Vec<String>, grantee: &String)
    ensures
        views(final(list)@) == granted(views(old(list)@), grantee@),
{
    let mut j: usize = 0;
    while j < list.len()
        invariant
            j <= list.len(),
            forall|k: int| 0 <= k < j ==> list@[k]@ != grantee@,
        decreases list.len() - j,
    {
        if list[j] == *grantee {
            proof {
                assert(views(list@)[j as int] == grantee@);
            }
            return;
        }
        j += 1;
    }
    proof {
        assert(!views(list@).contains(grantee@)) by {
            if views(list@).contains(grantee@) {
                let k = choose|k: int| 0 <= k < views(list@).len() && views(list@)[k] == grantee@;
                assert(list@[k]@ == grantee@);
            }
        }
    }
    let ghost before = list@;
    list.push(grantee.clone());
    proof {
        assert(views(list@) =~= views(before).push(grantee@));
    }
}

} // verus!
