//! Flat sequences of values of one width.

use vstd::prelude::*;
use crate::config::Datatype;
use crate::word::{lemma_pow256_of_widths, pow256};

verus! {

/// Every word of `words` can be written with `width` bytes.
pub open spec fn words_fit(words: Seq<u64>, width: nat) -> bool {
    forall|i: int| 0 <= i < words.len() ==> (#[trigger] words[i] as nat) < pow256(width)
}

/// An ordered sequence of values of one width, each held as its bit pattern.
#[derive(Debug, PartialEq, Eq)]
pub struct Data {
    dt: Datatype,
    words: Vec<u64>,
}

impl View for Data {
    type V = Seq<u64>;

    /// The bit patterns, in order.
    closed spec fn view(&self) -> Seq<u64> {
        self.words@
    }
}

impl Clone for Data {
    fn clone(&self) -> (copy: Self)
        ensures
            copy.datatype() == self.datatype(),
            copy@ == self@,
    {
        proof {
            use_type_invariant(self);
        }
        Data { dt: self.dt, words: self.words.clone() }
    }
}

impl Data {
    /// The width of the values.
    pub closed spec fn datatype(&self) -> Datatype {
        self.dt
    }

    /// No bit pattern is wider than the values are.
    #[verifier::type_invariant]
    pub open spec fn wf(&self) -> bool {
        words_fit(self@, self.datatype().width())
    }

    /// Single-precision values, from their bit patterns.
    pub fn from_singles(bits: Vec<u32>) -> (data: Self)
        ensures
            data.datatype() == Datatype::Float,
            data@ == bits@.map_values(|b: u32| b as u64),
    {
        let mut words: Vec<u64> = Vec::new();
        let mut i: usize = 0;
        while i < bits.len()
            invariant
                i <= bits.len(),
                words@ == bits@.take(i as int).map_values(|b: u32| b as u64),
            decreases bits.len() - i,
        {
            words.push(bits[i] as u64);
            i += 1;
        }
        proof {
            lemma_pow256_of_widths();
        }
        Data { dt: Datatype::Float, words }
    }

    /// Double-precision values, from their bit patterns.
    pub fn from_doubles(bits: Vec<u64>) -> (data: Self)
        ensures
            data.datatype() == Datatype::Double,
            data@ == bits@,
    {
        proof {
            lemma_pow256_of_widths();
        }
        Data { dt: Datatype::Double, words: bits }
    }

    /// Values of width `dt` whose bit patterns are `words`.
    pub(crate) fn from_words(dt: Datatype, words: Vec<u64>) -> (data: Self)
        requires
            words_fit(words@, dt.width()),
        ensures
            data.datatype() == dt,
            data@ == words@,
    {
        Data { dt, words }
    }

    /// The bit patterns, in order.
    pub fn words(&self) -> (words: &[u64])
        ensures
            words@ == self@,
            words_fit(words@, self.datatype().width()),
    {
        proof {
            use_type_invariant(self);
        }
        self.words.as_slice()
    }

    /// The bit patterns, in order.
    pub fn into_words(self) -> (words: Vec<u64>)
        ensures
            words@ == self@,
            words_fit(words@, self.datatype().width()),
    {
        proof {
            use_type_invariant(&self);
        }
        self.words
    }

    /// The bit patterns of single-precision values, where the values are of
    /// single precision.
    pub fn singles(&self) -> (bits: Option<Vec<u32>>)
        ensures
            bits is Some <==> self.datatype() == Datatype::Float,
            bits matches Some(b) ==> b@.map_values(|w: u32| w as u64) == self@,
    {
        proof {
            use_type_invariant(self);
            lemma_pow256_of_widths();
        }
        match self.dt {
            Datatype::Double => None,
            Datatype::Float => {
                let mut bits: Vec<u32> = Vec::new();
                let mut i: usize = 0;
                while i < self.words.len()
                    invariant
                        i <= self.words.len(),
                        self.words@ == self@,
                        words_fit(self@, 4),
                        pow256(4) == 0x1_0000_0000,
                        bits@.len() == i,
                        forall|k: int| 0 <= k < i ==> #[trigger] bits@[k] as u64 == self@[k],
                    decreases self.words.len() - i,
                {
                    let word = self.words[i];
                    bits.push(word as u32);
                    i += 1;
                }
                Some(bits)
            },
        }
    }

    /// The bit patterns of double-precision values, where the values are of
    /// double precision.
    pub fn doubles(&self) -> (bits: Option<Vec<u64>>)
        ensures
            bits is Some <==> self.datatype() == Datatype::Double,
            bits matches Some(b) ==> b@ == self@,
    {
        match self.dt {
            Datatype::Float => None,
            Datatype::Double => Some(self.words.clone()),
        }
    }

    /// The width of the values.
    pub fn dt(&self) -> (dt: Datatype)
        ensures
            dt == self.datatype(),
    {
        self.dt
    }

    /// The number of values.
    pub fn len(&self) -> (n: usize)
        ensures
            n == self@.len(),
    {
        self.words.len()
    }

    /// The bit pattern of the value at `i`, if there is one.
    pub fn get(&self, i: usize) -> (word: Option<u64>)
        ensures
            i < self@.len() ==> word == Some(self@[i as int]),
            i >= self@.len() ==> word is None,
    {
        if i < self.words.len() {
            Some(self.words[i])
        } else {
            None
        }
    }
}

} // verus!
