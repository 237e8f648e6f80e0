//! Contract binding for one bridge contract pair: encodes the outgoing
//! `deposit` call, builds the log filter for the `Deposit` event, and decodes
//! incoming event logs into [`Deposit`] records.
//!
//! The binding works against the ABI description supplied by configuration,
//! reduced to the two values the encoding needs: the 4-byte selector of the
//! `deposit` function and the 32-byte signature topic of the `Deposit` event.
//! The call and event encodings themselves are the fixed ABI layout, stated
//! here as functions on byte sequences.

use vstd::prelude::*;

use crate::types::{copy_bytes, push_all, push_zeros, slice_range};
use crate::types::{Deposit, LogFilter, RawLog, ADDRESS_LEN, WORD_LEN};

verus! {

/// Byte length of a function selector.
pub const SELECTOR_LEN: usize = 4;

/// Zero padding in front of a 20-byte address inside a 32-byte word.
pub const ADDRESS_PAD_LEN: usize = 12;

/// Byte length of the `Deposit` event's data: one word for the recipient,
/// one for the value.
pub const EVENT_DATA_LEN: usize = 64;

/// A configuration defect found while binding to the contract interface:
/// the ABI description lacks an expected entry. Fatal at startup; the
/// pipeline never begins.
#[derive(Clone, Copy, PartialEq, Eq, Structural, Debug)]
pub enum ConfigError {
    /// The ABI description holds no usable `deposit` function.
    MissingDepositFunction,
    /// The ABI description holds no usable `Deposit` event.
    MissingDepositEvent,
}

/// A per-log decoding failure. The offending log is dropped, not retried:
/// it would fail identically on every retry.
#[derive(Clone, Copy, PartialEq, Eq, Structural, Debug)]
pub enum DecodeError {
    /// The event data does not hold exactly two fields.
    WrongFieldCount,
    /// A field cannot be coerced to its expected type.
    TypeMismatch,
}

/// A 20-byte address left-padded with zeros to a 32-byte word.
pub open spec fn address_word(recipient: Seq<u8>) -> Seq<u8> {
    Seq::new(ADDRESS_PAD_LEN as nat, |i: int| 0u8) + recipient
}

/// The encoded `deposit(recipient, value, hash)` call: the function selector
/// followed by the three parameter words, in that fixed order.
pub open spec fn deposit_call_bytes(
    selector: Seq<u8>,
    recipient: Seq<u8>,
    value: Seq<u8>,
    hash: Seq<u8>,
) -> Seq<u8> {
    selector + address_word(recipient) + value + hash
}

/// The data section of a `Deposit(recipient, value)` event log: the recipient
/// word followed by the value word.
pub open spec fn deposit_event_data(recipient: Seq<u8>, value: Seq<u8>) -> Seq<u8> {
    address_word(recipient) + value
}

/// Whether event data decodes to a deposit: exactly two words, and the first
/// coercible to an address (its padding bytes are zero).
pub open spec fn decode_ok(data: Seq<u8>) -> bool {
    &&& data.len() == EVENT_DATA_LEN
    &&& forall|i: int| 0 <= i < ADDRESS_PAD_LEN ==> data[i] == 0
}

/// The recipient address carried by well-formed event data.
pub open spec fn decoded_recipient(data: Seq<u8>) -> Seq<u8> {
    data.subrange(ADDRESS_PAD_LEN as int, WORD_LEN as int)
}

/// The value word carried by well-formed event data.
pub open spec fn decoded_value(data: Seq<u8>) -> Seq<u8> {
    data.subrange(WORD_LEN as int, EVENT_DATA_LEN as int)
}

/// Which error malformed event data decodes to: a field count other than two
/// is reported before a field that cannot be coerced.
pub open spec fn decode_failure(data: Seq<u8>) -> DecodeError {
    if data.len() != EVENT_DATA_LEN {
        DecodeError::WrongFieldCount
    } else {
        DecodeError::TypeMismatch
    }
}

/// The fields of a deposit, as one spec value.
pub open spec fn deposit_fields(d: Deposit) -> (Seq<u8>, Seq<u8>, Seq<u8>) {
    (d.recipient@, d.value@, d.hash@)
}

/// The deposits decoded from a sequence of logs, in log order, decode
/// failures dropped. Each decoded deposit carries the recipient and value
/// from the log's data and the log's transaction hash as idempotency key.
pub open spec fn decoded_deposits(logs: Seq<RawLog>) -> Seq<(Seq<u8>, Seq<u8>, Seq<u8>)>
    decreases logs.len(),
{
    if logs.len() == 0 {
        Seq::empty()
    } else {
        let rest = decoded_deposits(logs.drop_last());
        let log = logs.last();
        if decode_ok(log.data@) {
            rest.push(
                (decoded_recipient(log.data@), decoded_value(log.data@), log.transaction_hash@),
            )
        } else {
            rest
        }
    }
}

/// The binding to one contract interface, reduced to the two ABI-derived
/// values the encoding needs.
pub struct KovanBridge {
    /// 4-byte selector of the destination contract's `deposit` function.
    pub selector: Vec<u8>,
    /// 32-byte signature topic of the source contract's `Deposit` event.
    pub event_topic: Vec<u8>,
}

impl KovanBridge {
    /// The two ABI-derived values have their fixed widths.
    pub open spec fn wf(&self) -> bool {
        &&& self.selector@.len() == SELECTOR_LEN
        &&& self.event_topic@.len() == WORD_LEN
    }

    /// Binds to a contract interface from the ABI description's `deposit`
    /// selector and `Deposit` signature topic, as configuration resolved
    /// them; `None` stands for an absent entry. Fails exactly when an entry
    /// is absent or not of its fixed width -- a configuration error, not a
    /// runtime condition.
    pub fn new(selector: Option<Vec<u8>>, event_topic: Option<Vec<u8>>) -> (r: Result<
        KovanBridge,
        ConfigError,
    >)
        ensures
            match r {
                Ok(b) => {
                    &&& b.wf()
                    &&& selector matches Some(s) && b.selector@ == s@
                    &&& event_topic matches Some(t) && b.event_topic@ == t@
                },
                Err(e) => {
                    &&& e == ConfigError::MissingDepositFunction <==> !(selector matches Some(s)
                        && s@.len() == SELECTOR_LEN)
                    &&& e == ConfigError::MissingDepositEvent <==> (selector matches Some(s)
                        && s@.len() == SELECTOR_LEN) && !(event_topic matches Some(t) && t@.len()
                        == WORD_LEN)
                },
            },
            r is Ok <==> (selector matches Some(s) && s@.len() == SELECTOR_LEN) && (
            event_topic matches Some(t) && t@.len() == WORD_LEN),
    {
        let sel = match selector {
            Some(s) => s,
            None => {
                return Err(ConfigError::MissingDepositFunction);
            },
        };
        if sel.len() != SELECTOR_LEN {
            return Err(ConfigError::MissingDepositFunction);
        }
        let topic = match event_topic {
            Some(t) => t,
            None => {
                return Err(ConfigError::MissingDepositEvent);
            },
        };
        if topic.len() != WORD_LEN {
            return Err(ConfigError::MissingDepositEvent);
        }
        Ok(KovanBridge { selector: sel, event_topic: topic })
    }

    /// Encodes the mirrored `deposit` call for one deposit: the selector,
    /// then the recipient, value and hash words, in that fixed order.
    pub fn deposit_payload(&self, deposit: &Deposit) -> (r: Vec<u8>)
        requires
            self.wf(),
            deposit.wf(),
        ensures
            r@ == deposit_call_bytes(
                self.selector@,
                deposit.recipient@,
                deposit.value@,
                deposit.hash@,
            ),
    {
        let mut out = copy_bytes(&self.selector);
        push_zeros(&mut out, ADDRESS_PAD_LEN);
        push_all(&mut out, &deposit.recipient);
        push_all(&mut out, &deposit.value);
        push_all(&mut out, &deposit.hash);
        proof {
            assert(out@ =~= deposit_call_bytes(
                self.selector@,
                deposit.recipient@,
                deposit.value@,
                deposit.hash@,
            ));
        }
        out
    }

    /// Builds the node-side filter for this binding's `Deposit` event at the
    /// given contract address. The block range is left unset; the log source
    /// supplies it per query.
    pub fn deposits_filter(&self, address: &Vec<u8>) -> (r: LogFilter)
        requires
            self.wf(),
        ensures
            r.address@ == address@,
            r.topic0@ == self.event_topic@,
            r.from_block is None,
            r.to_block is None,
    {
        LogFilter {
            address: copy_bytes(address),
            topic0: copy_bytes(&self.event_topic),
            from_block: None,
            to_block: None,
        }
    }

    /// Decodes one confirmed log into a deposit. The recipient and value
    /// come from the event data's two words; the idempotency hash is the
    /// log's transaction hash, so it is stable across reorganizations that
    /// keep the transaction itself. Fails with `WrongFieldCount` when the
    /// data does not hold exactly two words, and with `TypeMismatch` when
    /// the recipient word is not coercible to an address.
    pub fn deposit_from_log(&self, log: &RawLog) -> (r: Result<Deposit, DecodeError>)
        requires
            self.wf(),
            log.wf(),
        ensures
            decode_ok(log.data@) ==> (r matches Ok(d) && d.wf() && d.recipient@
                == decoded_recipient(log.data@) && d.value@ == decoded_value(log.data@) && d.hash@
                == log.transaction_hash@),
            !decode_ok(log.data@) ==> r == Err::<Deposit, DecodeError>(decode_failure(log.data@)),
    {
        if log.data.len() != EVENT_DATA_LEN {
            return Err(DecodeError::WrongFieldCount);
        }
        let mut i: usize = 0;
        while i < ADDRESS_PAD_LEN
            invariant
                i <= ADDRESS_PAD_LEN,
                log.data@.len() == EVENT_DATA_LEN,
                forall|j: int| 0 <= j < i ==> log.data@[j] == 0,
            decreases ADDRESS_PAD_LEN - i,
        {
            if log.data[i] != 0 {
                return Err(DecodeError::TypeMismatch);
            }
            i = i + 1;
        }
        let recipient = slice_range(&log.data, ADDRESS_PAD_LEN, WORD_LEN);
        let value = slice_range(&log.data, WORD_LEN, EVENT_DATA_LEN);
        let hash = copy_bytes(&log.transaction_hash);
        Ok(Deposit { recipient, value, hash })
    }

    /// The deposit decoder stage: decodes a batch of confirmed logs in
    /// order, dropping each log that fails to decode. Returns the decoded
    /// deposits and the count of dropped logs, which the caller reports for
    /// operator attention.
    pub fn decode_batch(&self, logs: &Vec<RawLog>) -> (r: (Vec<Deposit>, usize))
        requires
            self.wf(),
            forall|i: int| 0 <= i < logs@.len() ==> (#[trigger] logs@[i]).wf(),
        ensures
            r.0@.map_values(|d: Deposit| deposit_fields(d)) == decoded_deposits(logs@),
            forall|i: int| 0 <= i < r.0@.len() ==> (#[trigger] r.0@[i]).wf(),
            r.1 + r.0@.len() == logs@.len(),
    {
        let mut out: Vec<Deposit> = Vec::new();
        let mut dropped: usize = 0;
        let mut i: usize = 0;
        while i < logs.len()
            invariant
                self.wf(),
                i <= logs@.len(),
                forall|k: int| 0 <= k < logs@.len() ==> (#[trigger] logs@[k]).wf(),
                out@.map_values(|d: Deposit| deposit_fields(d)) =~= decoded_deposits(
                    logs@.subrange(0, i as int),
                ),
                forall|k: int| 0 <= k < out@.len() ==> (#[trigger] out@[k]).wf(),
                dropped + out@.len() == i,
            decreases logs@.len() - i,
        {
            let ghost prefix = logs@.subrange(0, i as int);
            let ghost next_prefix = logs@.subrange(0, i as int + 1);
            proof {
                assert(next_prefix.drop_last() =~= prefix);
                assert(next_prefix.last() == logs@[i as int]);
            }
            match self.deposit_from_log(&logs[i]) {
                Ok(d) => {
                    out.push(d);
                },
                Err(_) => {
                    dropped = dropped + 1;
                },
            }
            proof {
                assert(out@.map_values(|d: Deposit| deposit_fields(d)) =~= decoded_deposits(
                    next_prefix,
                ));
            }
            i = i + 1;
        }
        proof {
            assert(logs@.subrange(0, logs@.len() as int) =~= logs@);
        }
        (out, dropped)
    }
}

/// Decode round-trip: event data carrying an encoded recipient and value
/// decodes back to exactly that recipient and value, and the words a
/// deposit's encoded call carries for them are that same event data. The
/// idempotency hash is derived from the transaction, not round-tripped.
pub proof fn lemma_decode_round_trip(
    selector: Seq<u8>,
    recipient: Seq<u8>,
    value: Seq<u8>,
    hash: Seq<u8>,
)
    requires
        selector.len() == SELECTOR_LEN,
        recipient.len() == ADDRESS_LEN,
        value.len() == WORD_LEN,
        hash.len() == WORD_LEN,
    ensures
        decode_ok(deposit_event_data(recipient, value)),
        decoded_recipient(deposit_event_data(recipient, value)) == recipient,
        decoded_value(deposit_event_data(recipient, value)) == value,
        deposit_call_bytes(selector, recipient, value, hash).subrange(
            SELECTOR_LEN as int,
            SELECTOR_LEN + EVENT_DATA_LEN,
        ) == deposit_event_data(recipient, value),
{
    let data = deposit_event_data(recipient, value);
    assert(decoded_recipient(data) =~= recipient);
    assert(decoded_value(data) =~= value);
    assert(deposit_call_bytes(selector, recipient, value, hash).subrange(
        SELECTOR_LEN as int,
        SELECTOR_LEN + EVENT_DATA_LEN,
    ) =~= data);
}

} // verus!
