//! The frontend connection registry and the handshake that admits a
//! connection to it. The byte streams themselves live at the edge of the
//! system; the registry tracks which names are connected and which
//! connections have terminated.

use crate::errors::FrontendNotAvailableError;
use crate::frontend::{CoreActions, CoreEvent};
use crate::smap::StringMap;
use vstd::prelude::*;
use vstd::string::{StrSliceExecFns, StringExecFns};
use vstd::utf8::{decode_utf8, valid_utf8};

verus! {

/// The characters the handshake strips: the Unicode White_Space set.
pub open spec fn whitespace_char(c: char) -> bool {
    let u = c as u32;
    ||| (0x09 <= u && u <= 0x0D)
    ||| u == 0x20
    ||| u == 0x85
    ||| u == 0xA0
    ||| u == 0x1680
    ||| (0x2000 <= u && u <= 0x200A)
    ||| u == 0x2028
    ||| u == 0x2029
    ||| u == 0x202F
    ||| u == 0x205F
    ||| u == 0x3000
}

/// Whether `c` is in the Unicode White_Space set.
pub fn is_whitespace_char(c: char) -> (r: bool)
    ensures
        r == whitespace_char(c),
{
    let u = c as u32;
    (0x09 <= u && u <= 0x0D) || u == 0x20 || u == 0x85 || u == 0xA0 || u == 0x1680 || (0x2000 <= u
        && u <= 0x200A) || u == 0x2028 || u == 0x2029 || u == 0x202F || u == 0x205F || u == 0x3000
}

/// The character sequence with every whitespace character removed.
pub open spec fn strip_whitespace(s: Seq<char>) -> Seq<char> {
    s.filter(|c: char| !whitespace_char(c))
}

/// Relies on core::str::from_utf8: it succeeds exactly on the byte
/// sequences that are valid UTF-8 and yields their decoding.
#[verifier::external_body]
fn str_from_utf8(v: &[u8]) -> (r: Option<&str>)
    ensures
        r is Some <==> valid_utf8(v@),
        r matches Some(s) ==> s@ == decode_utf8(v@),
{
    core::str::from_utf8(v).ok()
}

/// Relies on the FromIterator impl of String: collecting characters
/// yields the string of exactly those characters in order.
#[verifier::external_body]
fn string_from_chars(cs: Vec<char>) -> (r: String)
    ensures
        r@ == cs@,
{
    cs.into_iter().collect()
}

/// Why a handshake was rejected.
#[derive(Debug, Clone, Copy, PartialEq, Eq, Structural)]
pub enum HandshakeError {
    Empty,
    InvalidEncoding,
}

impl HandshakeError {
    pub fn message(&self) -> (r: String)
        ensures
            match self {
                HandshakeError::Empty => r@ == "Empty handshake"@,
                HandshakeError::InvalidEncoding => r@ == "Handshake was not valid UTF-8"@,
            },
    {
        match self {
            HandshakeError::Empty => String::from_str("Empty handshake"),
            HandshakeError::InvalidEncoding => String::from_str("Handshake was not valid UTF-8"),
        }
    }
}

/// Keep only the non-whitespace characters of `s`.
fn strip_whitespace_exec(s: &str) -> (r: Vec<char>)
    ensures
        r@ == strip_whitespace(s@),
{
    let mut out: Vec<char> = Vec::new();
    let n = s.unicode_len();
    for i in 0..n
        invariant
            n == s@.len(),
            out@ == strip_whitespace(s@.subrange(0, i as int)),
    {
        let ghost sub = s@.subrange(0, i as int);
        let c = s.get_char(i);
        if !is_whitespace_char(c) {
            out.push(c);
        }
        proof {
            reveal(Seq::filter);
            assert(s@.subrange(0, i + 1) =~= sub.push(c));
            assert(sub.push(c).drop_last() =~= sub);
            assert(sub.push(c).drop_last() == sub);
            if !whitespace_char(c) {
                assert(strip_whitespace(sub.push(c)) == strip_whitespace(sub).push(c));
            } else {
                assert(strip_whitespace(sub.push(c)) == strip_whitespace(sub));
            }
        }
    }
    proof {
        reveal(Seq::filter);
        assert(s@.subrange(0, n as int) =~= s@);
        if n == 0 {
            assert(out@ =~= strip_whitespace(s@));
        }
    }
    out
}

/// The registry of connected frontends. The value records whether the
/// connection has been seen to terminate; terminated entries are removed
/// by the sweep that runs before the next dispatch.
#[derive(Debug)]
pub struct SockStreamMap {
    pub inner: StringMap<bool>,
}

impl SockStreamMap {
    /// Registered names mapped to their terminated flag.
    pub closed spec fn view(&self) -> Map<Seq<char>, bool> {
        self.inner@
    }

    pub open spec fn wf(&self) -> bool {
        self.inner.wf()
    }

    pub fn new() -> (r: Self)
        ensures
            r.wf(),
            r@ == Map::<Seq<char>, bool>::empty(),
    {
        SockStreamMap { inner: StringMap::new() }
    }

    /// Decide a handshake: an empty payload and a payload that is not
    /// UTF-8 are rejected; any other yields the sent name with all
    /// whitespace stripped.
    pub fn accept_handshake(buf: &[u8]) -> (r: Result<String, HandshakeError>)
        ensures
            buf@.len() == 0 ==> r == Err::<String, HandshakeError>(HandshakeError::Empty),
            buf@.len() > 0 && !valid_utf8(buf@) ==> r == Err::<String, HandshakeError>(
                HandshakeError::InvalidEncoding,
            ),
            buf@.len() > 0 && valid_utf8(buf@) ==> (r matches Ok(name) && name@
                == strip_whitespace(decode_utf8(buf@))),
    {
        if buf.len() == 0 {
            return Err(HandshakeError::Empty);
        }
        match str_from_utf8(buf) {
            Some(s) => Ok(string_from_chars(strip_whitespace_exec(s))),
            None => Err(HandshakeError::InvalidEncoding),
        }
    }

    /// Admit a named connection and hand back the handshake
    /// acknowledgement to write to it.
    pub fn insert(&mut self, name: String) -> (r: CoreEvent)
        requires
            old(self).wf(),
        ensures
            final(self).wf(),
            final(self)@ == old(self)@.insert(name@, false),
            r.version@ == crate::protocol_version(),
            r.uuid is None,
            r.action matches CoreActions::SignalSuccessHandshake(n) && n@ == name@,
    {
        let ev = CoreEvent::new(
            CoreActions::SignalSuccessHandshake(name.clone()),
            None,
        );
        self.inner.insert(name, false);
        ev
    }

    pub fn contains(&self, name: &String) -> (r: bool)
        requires
            self.wf(),
        ensures
            r == self@.contains_key(name@),
    {
        self.inner.contains_key(name)
    }

    /// Record that the named connection's stream has ended.
    pub fn mark_terminated(&mut self, name: &String)
        requires
            old(self).wf(),
        ensures
            final(self).wf(),
            old(self)@.contains_key(name@) ==> final(self)@ == old(self)@.insert(name@, true),
            !old(self)@.contains_key(name@) ==> *final(self) == *old(self),
    {
        match self.inner.index_of(name) {
            Some(i) => {
                proof {
                    self.inner.lemma_kv_index(i as int);
                }
                self.inner.set_value_at(i, true);
                proof {
                    assert(self.inner@ =~= old(self)@.insert(name@, true));
                }
            },
            None => (),
        }
    }

    /// Drop every terminated connection. Afterwards no terminated entry
    /// remains, so nothing more is dispatched to such a name.
    pub fn sweep_terminated(&mut self)
        requires
            old(self).wf(),
        ensures
            final(self).wf(),
            forall|k: Seq<char>|
                #![all_triggers]
                final(self)@.contains_key(k) <==> (old(self)@.contains_key(k) && old(self)@[k]
                    == false),
            forall|k: Seq<char>|
                #![all_triggers]
                final(self)@.contains_key(k) ==> final(self)@[k] == false,
    {
        let mut kept: StringMap<bool> = StringMap::new();
        let n = self.inner.len();
        for i in 0..n
            invariant
                n == self.inner.kv_seq().len(),
                self.inner.wf(),
                kept.wf(),
                forall|k: Seq<char>|
                    #![all_triggers]
                    kept@.contains_key(k) <==> exists|j: int|
                        0 <= j < i && (#[trigger] self.inner.kv_seq()[j]).0@ == k
                            && self.inner.kv_seq()[j].1 == false,
                forall|k: Seq<char>| #![all_triggers] kept@.contains_key(k) ==> kept@[k] == false,
        {
            let terminated = *self.inner.value_at(i);
            if !terminated {
                let name = self.inner.key_at(i).clone();
                kept.insert(name, false);
            }
            proof {
                assert forall|k: Seq<char>| #![all_triggers] kept@.contains_key(k) implies (
                exists|j: int|
                    0 <= j < i + 1 && (#[trigger] self.inner.kv_seq()[j]).0@ == k
                        && self.inner.kv_seq()[j].1 == false) by {}
            }
        }
        self.inner = kept;
        proof {
            assert forall|k: Seq<char>|
                #![all_triggers]
                self.inner@.contains_key(k) <==> (old(self)@.contains_key(k) && old(self)@[k]
                == false) by {
                old(self).inner.lemma_contains(k);
                if old(self)@.contains_key(k) && old(self)@[k] == false {
                    let j = choose|j: int|
                        0 <= j < old(self).inner.kv_seq().len() && old(self).inner.kv_seq()[j].0@
                            == k;
                    old(self).inner.lemma_kv_index(j);
                }
                if self.inner@.contains_key(k) {
                    let j = choose|j: int|
                        0 <= j < old(self).inner.kv_seq().len() && (#[trigger] old(self).inner.kv_seq()[j]).0@ == k && old(self).inner.kv_seq()[j].1 == false;
                    old(self).inner.lemma_kv_index(j);
                }
            }
        }
    }

    /// The registry counts as terminated when no connection is live: every
    /// entry has terminated (vacuously, when there is none).
    pub fn is_terminated(&self) -> (r: bool)
        requires
            self.wf(),
        ensures
            r == forall|k: Seq<char>| self@.contains_key(k) ==> self@[k] == true,
    {
        let n = self.inner.len();
        for i in 0..n
            invariant
                n == self.inner.kv_seq().len(),
                self.inner.wf(),
                forall|j: int| 0 <= j < i ==> (#[trigger] self.inner.kv_seq()[j]).1 == true,
        {
            proof {
                self.inner.lemma_kv_index(i as int);
            }
            if !*self.inner.value_at(i) {
                proof {
                    self.inner.lemma_kv_index(i as int);
                    let k = self.inner.kv_seq()[i as int].0@;
                    assert(self@.contains_key(k) && self@[k] == false);
                }
                return false;
            }
        }
        proof {
            assert forall|k: Seq<char>| self@.contains_key(k) implies self@[k] == true by {
                self.inner.lemma_contains(k);
                let j = choose|j: int|
                    0 <= j < self.inner.kv_seq().len() && self.inner.kv_seq()[j].0@ == k;
                self.inner.lemma_kv_index(j);
            }
        }
        true
    }

    /// The named frontend, if it is connected; the write itself happens at
    /// the edge of the system.
    pub fn write_stream(&self, name: &String) -> (r: Result<(), FrontendNotAvailableError>)
        requires
            self.wf(),
        ensures
            r is Ok <==> self@.contains_key(name@),
            r matches Err(e) ==> e.name@ == name@,
    {
        if self.inner.contains_key(name) {
            Ok(())
        } else {
            Err(FrontendNotAvailableError::new(name))
        }
    }
}

/// A connection that has terminated is gone after the sweep: nothing is
/// dispatched to its name before it registers again.
pub proof fn lemma_sweep_removes_terminated(pre: SockStreamMap, post: SockStreamMap, name: Seq<char>)
    requires
        forall|k: Seq<char>|
            #![all_triggers]
            post@.contains_key(k) <==> (pre@.contains_key(k) && pre@[k] == false),
        pre@.contains_key(name),
        pre@[name] == true,
    ensures
        !post@.contains_key(name),
{
}

} // verus!
