use crate::text::{byte_len, lemma_byte_len_concat};
use std::str::FromStr;
use vstd::prelude::*;

verus! {

/// How many bytes a host name may take.
pub const HOSTNAME_MAX_LENGTH: usize = 256;

/// A host name, with its port where it has one, in a string of fixed capacity.
#[verifier::external_body]
#[derive(Debug)]
pub struct Hostname {
    text: heapless::String<HOSTNAME_MAX_LENGTH>,
}

/// The characters that a host name holds.
pub uninterp spec fn hostname_text(host: Hostname) -> Seq<char>;

impl View for Hostname {
    type V = Seq<char>;

    open spec fn view(&self) -> Seq<char> {
        hostname_text(*self)
    }
}

/// What a host name holds that is made of `text`.
pub open spec fn fit(text: Seq<char>) -> Seq<char> {
    if byte_len(text) <= HOSTNAME_MAX_LENGTH {
        text
    } else {
        Seq::empty()
    }
}

/// What a host name holds that held `text` when `front` was put before it.
pub open spec fn prepended(front: Seq<char>, text: Seq<char>) -> Seq<char> {
    if byte_len(front) + byte_len(text) <= HOSTNAME_MAX_LENGTH {
        front + text
    } else {
        text
    }
}

impl Hostname {
    /// Calls `heapless::String::new`, which makes an empty string.
    #[verifier::external_body]
    fn new() -> (host: Hostname)
        ensures
            hostname_text(host) == Seq::<char>::empty(),
    {
        Hostname { text: heapless::String::new() }
    }

    /// Calls `heapless::String::from_str`, which copies a text that fits into the capacity and
    /// refuses any other.
    #[verifier::external_body]
    fn from_text(text: &str) -> (host: Option<Hostname>)
        ensures
            host is Some <==> byte_len(text@) <= HOSTNAME_MAX_LENGTH,
            host matches Some(h) ==> hostname_text(h) == text@,
    {
        heapless::String::from_str(text).ok().map(|text| Hostname { text })
    }

    /// Calls `heapless::String::insert_str` at the front. A text that fits beside what is there is
    /// put before it, any other changes nothing.
    #[verifier::external_body]
    fn insert_str(&mut self, idx: usize, text: &str) -> (done: bool)
        requires
            idx == 0,
        ensures
            done == (byte_len(text@) + byte_len(hostname_text(*old(self))) <= HOSTNAME_MAX_LENGTH),
            done ==> hostname_text(*final(self)) == text@ + hostname_text(*old(self)),
            !done ==> *final(self) == *old(self),
    {
        self.text.insert_str(idx, text).is_ok()
    }

    /// Calls `heapless::String::as_str`, which gives the text that the string holds. It lies within
    /// the capacity.
    #[verifier::external_body]
    fn held_text(&self) -> (text: &str)
        ensures
            text@ == hostname_text(*self),
            byte_len(text@) <= HOSTNAME_MAX_LENGTH,
    {
        self.text.as_str()
    }

    /// The host name as text, of no more than `HOSTNAME_MAX_LENGTH` bytes.
    pub fn as_str(&self) -> (text: &str)
        ensures
            text@ == self@,
            byte_len(text@) <= HOSTNAME_MAX_LENGTH,
    {
        self.held_text()
    }

    /// The host name `text`, or an empty one where it is too long.
    pub fn from_text_or_default(text: &str) -> (host: Hostname)
        ensures
            host@ == fit(text@),
            byte_len(text@) <= 256 ==> host@ == text@,
            byte_len(text@) > 256 ==> host@.len() == 0,
    {
        match Hostname::from_text(text) {
            Some(host) => host,
            None => Hostname::new(),
        }
    }

    /// Puts `text` before what is there, if there is room for it.
    pub fn prepend(&mut self, text: &str)
        ensures
            final(self)@ == prepended(text@, old(self)@),
            byte_len(text@) + byte_len(old(self)@) <= 256 ==> final(self)@ == text@ + old(self)@,
            byte_len(text@) + byte_len(old(self)@) > 256 ==> final(self)@ == old(self)@,
    {
        self.insert_str(0, text);
    }
}

impl Default for Hostname {
    fn default() -> (host: Hostname)
        ensures
            host@ == Seq::<char>::empty(),
    {
        Hostname::new()
    }
}

impl Clone for Hostname {
    fn clone(&self) -> (copy: Hostname)
        ensures
            copy@ == self@,
    {
        Hostname::from_text_or_default(self.as_str())
    }
}

/// A host name of up to 256 bytes is kept as it is, and none of a longer one. What is put before it
/// is put there whole or not at all, and what was there stays.
pub proof fn law_host_name_is_whole_or_nothing(front: Seq<char>, text: Seq<char>)
    ensures
        byte_len(text) <= 256 ==> fit(text) == text,
        byte_len(text) > 256 ==> fit(text).len() == 0,
        byte_len(front + text) <= 256 ==> prepended(front, text) == front + text,
        byte_len(front + text) > 256 ==> prepended(front, text) == text,
{
    lemma_byte_len_concat(front, text);
}

} // verus!
