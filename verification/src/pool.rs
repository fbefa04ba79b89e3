//! The connection pool: a slot map from routing tokens to the submit
//! channels of live connections. The pool only routes; it never owns a
//! connection, and it is oblivious to protocol state.

use vstd::prelude::*;

verus! {

/// A slot map from tokens to channel handles of type `T`.
pub struct Pool<T> {
    pub slots: Vec<Option<T>>,
}

impl<T> Pool<T> {
    /// An empty pool.
    pub fn new() -> (r: Pool<T>)
        ensures
            r.slots@.len() == 0,
    {
        Pool { slots: Vec::new() }
    }

    /// Adds a channel and hands back its routing token.
    pub fn add(&mut self, chan: T) -> (token: usize)
        ensures
            token == old(self).slots@.len(),
            final(self).slots@.len() == old(self).slots@.len() + 1,
            final(self).slots@ == old(self).slots@.push(Some(chan)),
    {
        let token = self.slots.len();
        self.slots.push(Some(chan));
        token
    }

    /// Removes the channel behind a token, if any.
    pub fn remove(&mut self, token: usize) -> (r: Option<T>)
        ensures
            final(self).slots@.len() == old(self).slots@.len(),
            token < old(self).slots@.len() ==> (r == old(self).slots@[token as int] && final(self).slots@ == old(self).slots@.update(token as int, None)),
            token >= old(self).slots@.len() ==> (r is None && final(self).slots@ == old(self).slots@),
    {
        if token < self.slots.len() {
            let mut taken: Option<T> = None;
            core::mem::swap(&mut taken, &mut self.slots[token]);
            proof {
                assert(self.slots@ =~= old(self).slots@.update(token as int, None));
            }
            taken
        } else {
            None
        }
    }

    /// The channel behind a token, if any.
    pub fn find_channel_by_token(&self, token: usize) -> (r: Option<&T>)
        ensures
            token < self.slots@.len() ==> (match r {
                Some(c) => self.slots@[token as int] matches Some(c2) && *c == c2,
                None => self.slots@[token as int] is None,
            }),
            token >= self.slots@.len() ==> r is None,
    {
        if token < self.slots.len() {
            match &self.slots[token] {
                Some(c) => Some(c),
                None => None,
            }
        } else {
            None
        }
    }
}

} // verus!
