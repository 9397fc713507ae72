//! Request parameters and their canonical query-string serialization.
//!
//! Parameters form an ordered mapping from name to string value.  Keys are
//! unique (a later insert of the same key wins); serialization order is the
//! insertion order, pinned here because the signature is computed over the
//! exact serialized string.

use vstd::prelude::*;
use vstd::string::StrSliceExecFns;
use vstd::string::StringExecFns;

verus! {

/// One `key=value` parameter.
pub struct Param {
    pub key: String,
    pub value: String,
}

/// An ordered mapping from parameter name to value with unique keys.
pub struct Params {
    pairs: Vec<Param>,
}

impl View for Params {
    type V = Seq<(Seq<char>, Seq<char>)>;

    closed spec fn view(&self) -> Seq<(Seq<char>, Seq<char>)> {
        self.pairs@.map_values(|p: Param| (p.key@, p.value@))
    }
}

/// `ps` with every pair keyed `k` removed, order otherwise kept.
pub open spec fn spec_remove_key(ps: Seq<(Seq<char>, Seq<char>)>, k: Seq<char>) -> Seq<
    (Seq<char>, Seq<char>),
>
    decreases ps.len(),
{
    if ps.len() == 0 {
        ps
    } else if ps[0].0 == k {
        spec_remove_key(ps.skip(1), k)
    } else {
        seq![ps[0]] + spec_remove_key(ps.skip(1), k)
    }
}

/// Last write wins: an insert removes any earlier binding of the key and
/// appends the new one.
pub open spec fn spec_insert(
    ps: Seq<(Seq<char>, Seq<char>)>,
    k: Seq<char>,
    v: Seq<char>,
) -> Seq<(Seq<char>, Seq<char>)> {
    spec_remove_key(ps, k).push((k, v))
}

pub open spec fn spec_param_entry(p: (Seq<char>, Seq<char>)) -> Seq<char> {
    p.0 + seq!['='] + p.1
}

/// The canonical query string: entries joined with `'&'`, in order.
pub open spec fn spec_query(ps: Seq<(Seq<char>, Seq<char>)>) -> Seq<char>
    decreases ps.len(),
{
    if ps.len() == 0 {
        Seq::<char>::empty()
    } else if ps.len() == 1 {
        spec_param_entry(ps[0])
    } else {
        spec_query(ps.drop_last()) + seq!['&'] + spec_param_entry(ps.last())
    }
}

proof fn lemma_remove_key_concat(a: Seq<(Seq<char>, Seq<char>)>, b: Seq<(Seq<char>, Seq<char>)>, k: Seq<char>)
    ensures
        spec_remove_key(a + b, k) == spec_remove_key(a, k) + spec_remove_key(b, k),
    decreases a.len(),
{
    if a.len() == 0 {
        assert(a + b =~= b);
        assert(spec_remove_key(a, k) + spec_remove_key(b, k) =~= spec_remove_key(b, k));
    } else {
        assert((a + b).skip(1) =~= a.skip(1) + b);
        lemma_remove_key_concat(a.skip(1), b, k);
        if a[0].0 == k {
        } else {
            assert(seq![(a + b)[0]] + (spec_remove_key(a.skip(1), k) + spec_remove_key(b, k))
                =~= (seq![a[0]] + spec_remove_key(a.skip(1), k)) + spec_remove_key(b, k));
        }
    }
}

impl Params {
    /// An empty parameter set.
    pub fn new() -> (r: Params)
        ensures
            r@ == Seq::<(Seq<char>, Seq<char>)>::empty(),
    {
        let r = Params { pairs: Vec::new() };
        proof {
            assert(r@ =~= Seq::<(Seq<char>, Seq<char>)>::empty());
        }
        r
    }

    pub fn len(&self) -> (r: usize)
        ensures
            r == self@.len(),
    {
        self.pairs.len()
    }

    /// Appends a parameter known (or allowed) to repeat an existing key only
    /// through `insert`; the signed-request builder uses it for the fields it
    /// itself appends last.
    pub fn push(&mut self, key: &str, value: &str)
        ensures
            final(self)@ == old(self)@.push((key@, value@)),
    {
        let ghost prev = self@;
        self.pairs.push(Param { key: key.to_owned(), value: value.to_owned() });
        proof {
            assert(self@ =~= prev.push((key@, value@)));
        }
    }

    /// Sets a parameter, last write wins: any earlier binding of the key is
    /// dropped and the new pair goes to the end.
    pub fn insert(&mut self, key: &str, value: &str)
        ensures
            final(self)@ == spec_insert(old(self)@, key@, value@),
    {
        let owned = key.to_owned();
        let mut kept: Vec<Param> = Vec::new();
        let ghost orig = self@;
        proof {
            assert(orig.take(0) =~= Seq::<(Seq<char>, Seq<char>)>::empty());
            assert(kept@.map_values(|p: Param| (p.key@, p.value@)) =~= spec_remove_key(
                orig.take(0),
                key@,
            ));
        }
        let mut i: usize = 0;
        while i < self.pairs.len()
            invariant
                0 <= i <= self.pairs@.len(),
                owned@ == key@,
                orig == self.pairs@.map_values(|p: Param| (p.key@, p.value@)),
                kept@.map_values(|p: Param| (p.key@, p.value@)) == spec_remove_key(
                    orig.take(i as int),
                    key@,
                ),
            decreases self.pairs@.len() - i,
        {
            proof {
                assert(orig[i as int] == (self.pairs@[i as int].key@, self.pairs@[i as int].value@));
                lemma_remove_key_concat(orig.take(i as int), seq![orig[i as int]], key@);
                assert(orig.take(i as int) + seq![orig[i as int]] =~= orig.take(i + 1));
            }
            if self.pairs[i].key == owned {
                proof {
                    assert(seq![orig[i as int]].skip(1) =~= Seq::<(Seq<char>, Seq<char>)>::empty());
                    assert(spec_remove_key(Seq::<(Seq<char>, Seq<char>)>::empty(), key@) =~= Seq::<
                        (Seq<char>, Seq<char>),
                    >::empty());
                    assert(spec_remove_key(seq![orig[i as int]], key@) =~= Seq::<(
                        Seq<char>,
                        Seq<char>,
                    )>::empty());
                    assert(kept@.map_values(|p: Param| (p.key@, p.value@)) =~= spec_remove_key(
                        orig.take(i + 1),
                        key@,
                    ));
                }
            } else {
                let ghost kview = kept@;
                let k2 = self.pairs[i].key.clone();
                let v2 = self.pairs[i].value.clone();
                kept.push(Param { key: k2, value: v2 });
                proof {
                    assert(seq![orig[i as int]].skip(1) =~= Seq::<(Seq<char>, Seq<char>)>::empty());
                    assert(spec_remove_key(Seq::<(Seq<char>, Seq<char>)>::empty(), key@) =~= Seq::<
                        (Seq<char>, Seq<char>),
                    >::empty());
                    assert(spec_remove_key(seq![orig[i as int]], key@) =~= seq![orig[i as int]]);
                    assert(kept@.map_values(|p: Param| (p.key@, p.value@)) =~= kview.map_values(
                        |p: Param| (p.key@, p.value@),
                    ).push(orig[i as int]));
                    assert(kept@.map_values(|p: Param| (p.key@, p.value@)) =~= spec_remove_key(
                        orig.take(i + 1),
                        key@,
                    ));
                }
            }
            i += 1;
        }
        proof {
            assert(orig.take(i as int) =~= orig);
        }
        let ghost kview = kept@;
        kept.push(Param { key: owned, value: value.to_owned() });
        self.pairs = kept;
        proof {
            assert(self@ =~= kview.map_values(|p: Param| (p.key@, p.value@)).push(
                (key@, value@),
            ));
        }
    }

    /// An order-preserving copy with the same keys and values.
    pub fn clone_params(&self) -> (r: Params)
        ensures
            r@ == self@,
    {
        let mut out: Vec<Param> = Vec::new();
        proof {
            assert(out@.map_values(|p: Param| (p.key@, p.value@)) =~= self@.take(0));
        }
        let mut i: usize = 0;
        while i < self.pairs.len()
            invariant
                0 <= i <= self.pairs@.len(),
                self@ == self.pairs@.map_values(|p: Param| (p.key@, p.value@)),
                self@.len() == self.pairs@.len(),
                out@.map_values(|p: Param| (p.key@, p.value@)) == self@.take(i as int),
            decreases self.pairs@.len() - i,
        {
            let ghost oview = out@;
            let k = self.pairs[i].key.clone();
            let v = self.pairs[i].value.clone();
            let ghost kv = (k@, v@);
            out.push(Param { key: k, value: v });
            proof {
                assert(self@[i as int] == (self.pairs@[i as int].key@, self.pairs@[i as int].value@));
                assert(kv == self@[i as int]);
                assert(out@.map_values(|p: Param| (p.key@, p.value@)) =~= oview.map_values(
                    |p: Param| (p.key@, p.value@),
                ).push(kv));
                assert(out@.map_values(|p: Param| (p.key@, p.value@)) =~= self@.take(i + 1));
            }
            i += 1;
        }
        let r = Params { pairs: out };
        proof {
            assert(self@.take(i as int) =~= self@);
        }
        r
    }

    /// Serializes the parameters as `k1=v1&k2=v2&...` in insertion order.
    pub fn to_query_string(&self) -> (r: String)
        ensures
            r@ == spec_query(self@),
    {
        let mut out = String::new();
        proof {
            assert(self@.take(0) =~= Seq::<(Seq<char>, Seq<char>)>::empty());
            assert(out@ =~= spec_query(self@.take(0)));
        }
        let mut i: usize = 0;
        while i < self.pairs.len()
            invariant
                0 <= i <= self.pairs@.len(),
                self@ == self.pairs@.map_values(|p: Param| (p.key@, p.value@)),
                self@.len() == self.pairs@.len(),
                out@ == spec_query(self@.take(i as int)),
            decreases self.pairs@.len() - i,
        {
            proof {
                assert(self@[i as int] == (self.pairs@[i as int].key@, self.pairs@[i as int].value@));
            }
            if i > 0 {
                out.append("&");
                proof {
                    reveal_strlit("&");
                    assert("&"@ =~= seq!['&']);
                }
            }
            out.append(self.pairs[i].key.as_str());
            out.append("=");
            out.append(self.pairs[i].value.as_str());
            proof {
                reveal_strlit("=");
                assert("="@ =~= seq!['=']);
                assert(self@.take(i + 1).drop_last() =~= self@.take(i as int));
                assert(self@.take(i + 1).last() == self@[i as int]);
                assert(out@ =~= spec_query(self@.take(i + 1)));
            }
            i += 1;
        }
        proof {
            assert(self@.take(i as int) =~= self@);
        }
        out
    }
}

} // verus!
