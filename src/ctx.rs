use vstd::prelude::*;
use std::collections::HashMap;
use crate::error::{WzError, WzErrorKind};
use crate::ty::WzStr;

verus! {

broadcast use vstd::std_specs::hash::group_hash_axioms;

/// The strings an image reader has met, keyed by the position they were read at.
#[derive(Debug)]
pub struct WzStrTable(HashMap<u32, String>);

impl View for WzStrTable {
    type V = Map<u32, Seq<char>>;

    closed spec fn view(&self) -> Map<u32, Seq<char>> {
        self.0@.map_values(|s: String| s@)
    }
}

impl WzStrTable {
    pub fn new() -> (r: WzStrTable)
        ensures
            r@ == Map::<u32, Seq<char>>::empty(),
    {
        let r = WzStrTable(HashMap::new());
        assert(r@ =~= Map::<u32, Seq<char>>::empty());
        r
    }

    pub fn get(&self, offset: &u32) -> (r: Option<WzStr>)
        ensures
            match r {
                Some(s) => self@.contains_key(*offset) && s.0@ == self@[*offset],
                None => !self@.contains_key(*offset),
            },
    {
        match self.0.get(offset) {
            Some(s) => Some(WzStr(s.clone())),
            None => None,
        }
    }

    pub fn must_get(&self, offset: &u32) -> (r: Result<WzStr, WzError>)
        ensures
            match r {
                Ok(s) => self@.contains_key(*offset) && s.0@ == self@[*offset],
                Err(e) => !self@.contains_key(*offset) && e.kind
                    == WzErrorKind::MissingStringTableEntry && e.pos == *offset as u64,
            },
    {
        match self.get(offset) {
            Some(s) => Ok(s),
            None => Err(WzError { kind: WzErrorKind::MissingStringTableEntry, pos: *offset as u64 }),
        }
    }

    pub fn insert(&mut self, offset: u32, s: WzStr)
        ensures
            final(self)@ == old(self)@.insert(offset, s.0@),
    {
        self.0.insert(offset, s.0);
        assert(final(self)@ =~= old(self)@.insert(offset, s.0@));
    }
}

/// The positions at which a writer has put each string, in the order they were first written.
#[derive(Debug)]
pub struct WzStrWriteTable(Vec<(String, u32)>);

impl View for WzStrWriteTable {
    type V = Seq<(Seq<char>, u32)>;

    closed spec fn view(&self) -> Seq<(Seq<char>, u32)> {
        self.0@.map_values(|e: (String, u32)| (e.0@, e.1))
    }
}

/// The position recorded for `s`, if any.
pub open spec fn write_table_lookup(t: Seq<(Seq<char>, u32)>, s: Seq<char>) -> Option<u32>
    decreases t.len(),
{
    if t.len() == 0 {
        None
    } else if t[0].0 == s {
        Some(t[0].1)
    } else {
        write_table_lookup(t.drop_first(), s)
    }
}

impl WzStrWriteTable {
    pub fn new() -> (r: WzStrWriteTable)
        ensures
            r@ == Seq::<(Seq<char>, u32)>::empty(),
    {
        let r = WzStrWriteTable(Vec::new());
        assert(r@ =~= Seq::<(Seq<char>, u32)>::empty());
        r
    }

    pub fn get(&self, s: &str) -> (r: Option<u32>)
        ensures
            r == write_table_lookup(self@, s@),
    {
        let key = String::from_str(s);
        let mut i: usize = 0;
        assert(self@.subrange(0, self@.len() as int) =~= self@);
        while i < self.0.len()
            invariant
                i <= self.0@.len(),
                key@ == s@,
                write_table_lookup(self@, s@) == write_table_lookup(self@.subrange(i as int, self@.len() as int), s@),
            decreases self.0@.len() - i,
        {
            let ghost rest = self@.subrange(i as int, self@.len() as int);
            assert(rest[0] == (self.0@[i as int].0@, self.0@[i as int].1));
            if self.0[i].0 == key {
                return Some(self.0[i].1);
            }
            assert(rest.drop_first() =~= self@.subrange(i + 1, self@.len() as int));
            i = i + 1;
        }
        None
    }

    /// Records `offset` for `s`; a later lookup of `s` finds the first position recorded.
    pub fn insert(&mut self, s: String, offset: u32)
        ensures
            final(self)@ == old(self)@.push((s@, offset)),
    {
        self.0.push((s, offset));
        assert(final(self)@ =~= old(self)@.push((s@, offset)));
    }
}

} // verus!
