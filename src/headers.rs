//! Request headers: a single value per lower-cased name, the last one given wins.
use vstd::prelude::*;
use crate::bytes::{lower, lower_exec, slice_copy, bytes_eq};

verus! {

/// One header as it was stored: the name lower-cased, the value as sent.
pub struct HeaderField {
    pub name: Vec<u8>,
    pub value: Vec<u8>,
}

/// Headers in the order they were stored.
pub struct Headers {
    pub entries: Vec<HeaderField>,
}

impl View for Headers {
    type V = Seq<(Seq<u8>, Seq<u8>)>;

    open spec fn view(&self) -> Seq<(Seq<u8>, Seq<u8>)> {
        self.entries@.map_values(|f: HeaderField| (f.name@, f.value@))
    }
}

/// The value stored last under `key`.
pub open spec fn header_value(h: Seq<(Seq<u8>, Seq<u8>)>, key: Seq<u8>) -> Option<Seq<u8>>
    decreases h.len(),
{
    if h.len() == 0 {
        None
    } else if h.last().0 == key {
        Some(h.last().1)
    } else {
        header_value(h.drop_last(), key)
    }
}

/// A lookup in stored headers by a name in any case.
pub open spec fn lookup(h: Seq<(Seq<u8>, Seq<u8>)>, name: Seq<u8>) -> Option<Seq<u8>> {
    header_value(h, lower(name))
}

pub open spec fn opt_view(o: Option<Vec<u8>>) -> Option<Seq<u8>> {
    match o {
        Some(v) => Some(v@),
        None => None,
    }
}

impl Headers {
    /// Every stored name is lower-cased.
    pub open spec fn wf(&self) -> bool {
        forall|i: int| 0 <= i < self@.len() ==> lower(#[trigger] self@[i].0) == self@[i].0
    }

    pub fn new() -> (r: Headers)
        ensures
            r@ == Seq::<(Seq<u8>, Seq<u8>)>::empty(),
            r.wf(),
    {
        let r = Headers { entries: Vec::new() };
        assert(r@ =~= Seq::<(Seq<u8>, Seq<u8>)>::empty());
        r
    }

    /// Stores `value` under the lower-cased `name`, replacing what a lookup found before.
    pub fn insert(&mut self, name: &[u8], value: Vec<u8>)
        requires
            old(self).wf(),
        ensures
            final(self)@ == old(self)@.push((lower(name@), value@)),
            final(self).wf(),
    {
        let key = lower_exec(name);
        proof {
            assert(lower(lower(name@)) =~= lower(name@));
        }
        self.entries.push(HeaderField { name: key, value });
        assert(self@ =~= old(self)@.push((lower(name@), value@)));
    }

    /// The value stored last under `name`, compared without regard to ASCII case.
    pub fn get(&self, name: &[u8]) -> (r: Option<Vec<u8>>)
        ensures
            opt_view(r) == lookup(self@, name@),
    {
        let key = lower_exec(name);
        let mut i: usize = self.entries.len();
        assert(self@.subrange(0, i as int) =~= self@);
        while i > 0
            invariant
                i <= self@.len(),
                key@ == lower(name@),
                header_value(self@, key@) == header_value(self@.subrange(0, i as int), key@),
            decreases i,
        {
            let f = &self.entries[i - 1];
            assert(self@.subrange(0, i as int).last() == (f.name@, f.value@));
            assert(self@.subrange(0, i as int).drop_last() =~= self@.subrange(0, i - 1 as int));
            if bytes_eq(f.name.as_slice(), key.as_slice()) {
                return Some(slice_copy(f.value.as_slice(), 0, f.value.len()));
            }
            i = i - 1;
        }
        None
    }
}

/// Header names are matched without regard to ASCII case: a value stored under a
/// name is found by any spelling of that name, and later values win.
pub proof fn lemma_lookup_ignores_case(
    h: Seq<(Seq<u8>, Seq<u8>)>,
    name: Seq<u8>,
    value: Seq<u8>,
    query: Seq<u8>,
)
    requires
        lower(query) == lower(name),
    ensures
        lookup(h.push((lower(name), value)), query) == Some(value),
{
    assert(h.push((lower(name), value)).last() == (lower(name), value));
}

} // verus!
