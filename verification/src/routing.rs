//! Path routing of the proxy front-end: split a request target into the
//! module key and the target forwarded into the guest.
//!
//! The request target is the path-and-query of the incoming URI, as bytes.
//! Leading slashes are trimmed; the first remaining slash separates the key
//! from the forwarded remainder. When no slash remains, the whole trimmed
//! query-less path is the key, forwarded as `/` with any query preserved.

use vstd::prelude::*;

verus! {

/// `/` in a request target.
pub const SLASH: u8 = 47;

/// `?` in a request target.
pub const QMARK: u8 = 63;

/// The target with every leading slash removed.
pub open spec fn drop_leading_slashes(s: Seq<u8>) -> Seq<u8>
    decreases s.len(),
{
    if s.len() > 0 && s[0] == SLASH {
        drop_leading_slashes(s.skip(1))
    } else {
        s
    }
}

/// Whether the byte occurs in the string.
pub open spec fn contains_byte(s: Seq<u8>, b: u8) -> bool {
    exists|i: int| 0 <= i < s.len() && s[i] == b
}

/// Everything before the first occurrence of the byte; the whole string when
/// the byte is absent.
pub open spec fn before_first(s: Seq<u8>, b: u8) -> Seq<u8>
    decreases s.len(),
{
    if s.len() == 0 {
        Seq::empty()
    } else if s[0] == b {
        Seq::empty()
    } else {
        seq![s[0]] + before_first(s.skip(1), b)
    }
}

/// Everything after the first occurrence of the byte; empty when the byte is
/// absent.
pub open spec fn after_first(s: Seq<u8>, b: u8) -> Seq<u8>
    decreases s.len(),
{
    if s.len() == 0 {
        Seq::empty()
    } else if s[0] == b {
        s.skip(1)
    } else {
        after_first(s.skip(1), b)
    }
}

/// The module key selected by a request target: the first path segment.
pub open spec fn route_key(s: Seq<u8>) -> Seq<u8> {
    let t = drop_leading_slashes(s);
    if contains_byte(t, SLASH) {
        before_first(t, SLASH)
    } else {
        before_first(t, QMARK)
    }
}

/// The remainder forwarded into the guest, without its leading slash. When
/// the key is the whole path, the query (with its `?`) is all that is
/// forwarded.
pub open spec fn route_forward(s: Seq<u8>) -> Seq<u8> {
    let t = drop_leading_slashes(s);
    if contains_byte(t, SLASH) {
        after_first(t, SLASH)
    } else {
        t.skip(before_first(t, QMARK).len() as int)
    }
}

proof fn lemma_drop_leading(s: Seq<u8>, i: int)
    requires
        0 <= i <= s.len(),
        forall|j: int| 0 <= j < i ==> s[j] == SLASH,
        i == s.len() || s[i] != SLASH,
    ensures
        drop_leading_slashes(s) == s.skip(i),
    decreases i,
{
    if i == 0 {
        assert(s.skip(0) =~= s);
    } else {
        assert(s[0] == SLASH);
        lemma_drop_leading(s.skip(1), i - 1);
        assert(s.skip(1).skip(i - 1) =~= s.skip(i));
    }
}

proof fn lemma_split_at_first(s: Seq<u8>, b: u8, i: int)
    requires
        0 <= i < s.len(),
        s[i] == b,
        forall|j: int| 0 <= j < i ==> s[j] != b,
    ensures
        contains_byte(s, b),
        before_first(s, b) == s.take(i),
        after_first(s, b) == s.skip(i + 1),
    decreases i,
{
    assert(contains_byte(s, b));
    if i == 0 {
        assert(s.take(0) =~= Seq::<u8>::empty());
        assert(s.skip(1) =~= s.skip(1));
    } else {
        lemma_split_at_first(s.skip(1), b, i - 1);
        assert(seq![s[0]] + s.skip(1).take(i - 1) =~= s.take(i));
        assert(s.skip(1).skip(i) =~= s.skip(i + 1));
    }
}

proof fn lemma_no_byte(s: Seq<u8>, b: u8)
    requires
        forall|j: int| 0 <= j < s.len() ==> s[j] != b,
    ensures
        !contains_byte(s, b),
        before_first(s, b) == s,
        after_first(s, b) == Seq::<u8>::empty(),
    decreases s.len(),
{
    if s.len() == 0 {
        assert(before_first(s, b) =~= s);
    } else {
        lemma_no_byte(s.skip(1), b);
        assert(seq![s[0]] + s.skip(1) =~= s);
    }
}

/// Find the first occurrence of a byte at or after `from`.
fn find_byte_from(v: &Vec<u8>, from: usize, b: u8) -> (r: Option<usize>)
    requires
        from <= v@.len(),
    ensures
        match r {
            Some(i) => from <= i < v@.len() && v@[i as int] == b && (forall|j: int|
                from <= j < i ==> v@[j] != b),
            None => forall|j: int| from <= j < v@.len() ==> v@[j] != b,
        },
{
    let mut i: usize = from;
    while i < v.len()
        invariant
            from <= i <= v@.len(),
            forall|j: int| from <= j < i ==> v@[j] != b,
        decreases v@.len() - i,
    {
        if v[i] == b {
            return Some(i);
        }
        i = i + 1;
    }
    None
}

/// Length of the run of leading slashes.
fn leading_slash_count(v: &Vec<u8>) -> (i: usize)
    ensures
        i <= v@.len(),
        forall|j: int| 0 <= j < i ==> v@[j] == SLASH,
        i < v@.len() ==> v@[i as int] != SLASH,
{
    let mut i: usize = 0;
    while i < v.len()
        invariant
            i <= v@.len(),
            forall|j: int| 0 <= j < i ==> v@[j] == SLASH,
        decreases v@.len() - i,
    {
        if v[i] != SLASH {
            return i;
        }
        i = i + 1;
    }
    i
}

/// Copy of `v[from..to]`.
fn sub_vec(v: &Vec<u8>, from: usize, to: usize) -> (r: Vec<u8>)
    requires
        from <= to <= v@.len(),
    ensures
        r@ == v@.subrange(from as int, to as int),
{
    let mut r: Vec<u8> = Vec::new();
    let mut i: usize = from;
    while i < to
        invariant
            from <= i <= to <= v@.len(),
            r@ == v@.subrange(from as int, i as int),
        decreases to - i,
    {
        r.push(v[i]);
        i = i + 1;
        proof {
            assert(v@.subrange(from as int, i as int) =~= v@.subrange(
                from as int,
                i - 1,
            ).push(v@[i - 1]));
        }
    }
    r
}

/// Split a request target into the module key and the remainder forwarded
/// into the guest. The forwarded remainder carries no leading slash; the
/// proxy prefixes one before handing it to the worker.
pub fn route_request(target: &Vec<u8>) -> (r: (Vec<u8>, Vec<u8>))
    ensures
        r.0@ == route_key(target@),
        r.1@ == route_forward(target@),
{
    let start = leading_slash_count(target);
    proof {
        lemma_drop_leading(target@, start as int);
    }
    let trimmed_slash = find_byte_from(target, start, SLASH);
    match trimmed_slash {
        Some(p) => {
            proof {
                let t = target@.skip(start as int);
                assert(t[p - start] == SLASH);
                assert forall|j: int| 0 <= j < p - start implies t[j] != SLASH by {
                    assert(target@[start + j] != SLASH);
                }
                lemma_split_at_first(t, SLASH, p - start);
                assert(t.take(p - start) =~= target@.subrange(start as int, p as int));
                assert(t.skip(p - start + 1) =~= target@.subrange(
                    p + 1,
                    target@.len() as int,
                ));
            }
            let key = sub_vec(target, start, p);
            let n = target.len();
            assert(p < n);
            let forward = sub_vec(target, p + 1, n);
            (key, forward)
        },
        None => {
            proof {
                let t = target@.skip(start as int);
                assert forall|j: int| 0 <= j < t.len() implies t[j] != SLASH by {
                    assert(target@[start + j] != SLASH);
                }
                lemma_no_byte(t, SLASH);
            }
            let qpos = find_byte_from(target, start, QMARK);
            match qpos {
                Some(q) => {
                    proof {
                        let t = target@.skip(start as int);
                        assert(t[q - start] == QMARK);
                        assert forall|j: int| 0 <= j < q - start implies t[j] != QMARK by {
                            assert(target@[start + j] != QMARK);
                        }
                        lemma_split_at_first(t, QMARK, q - start);
                        assert(t.take(q - start) =~= target@.subrange(start as int, q as int));
                        assert(before_first(t, QMARK).len() == q - start);
                        assert(t.skip(q - start) =~= target@.subrange(
                            q as int,
                            target@.len() as int,
                        ));
                    }
                    let key = sub_vec(target, start, q);
                    let forward = sub_vec(target, q, target.len());
                    (key, forward)
                },
                None => {
                    proof {
                        let t = target@.skip(start as int);
                        assert forall|j: int| 0 <= j < t.len() implies t[j] != QMARK by {
                            assert(target@[start + j] != QMARK);
                        }
                        lemma_no_byte(t, QMARK);
                        assert(t =~= target@.subrange(start as int, target@.len() as int));
                        assert(t.skip(t.len() as int) =~= Seq::<u8>::empty());
                    }
                    let key = sub_vec(target, start, target.len());
                    (key, Vec::new())
                },
            }
        },
    }
}

/// Prefix the forwarded remainder with the slash the guest-observed target
/// starts with.
pub fn forwarded_target(forward: &Vec<u8>) -> (r: Vec<u8>)
    ensures
        r@ == seq![SLASH] + forward@,
{
    let mut r: Vec<u8> = Vec::new();
    r.push(SLASH);
    let mut i: usize = 0;
    while i < forward.len()
        invariant
            i <= forward@.len(),
            r@ == seq![SLASH] + forward@.take(i as int),
        decreases forward@.len() - i,
    {
        r.push(forward[i]);
        i = i + 1;
        proof {
            assert(seq![SLASH] + forward@.take(i as int) =~= (seq![SLASH] + forward@.take(i - 1)).push(
                forward@[i - 1],
            ));
        }
    }
    proof {
        assert(forward@.take(forward@.len() as int) =~= forward@);
    }
    r
}

} // verus!
