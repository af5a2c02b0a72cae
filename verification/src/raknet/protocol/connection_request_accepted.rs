//! The server's acceptance of a connection request, and the RakNet clock.
use crate::buffer::{buffer_contents, buffer_limit, buffer_put_u16, buffer_put_u64};
use crate::error::Result;
use crate::raknet::protocol::address::RakNetAddress;
use crate::wire::{u16_to_be, u64_to_be};
use bytes::BytesMut;
use std::time::{Duration, SystemTime, SystemTimeError};
use vstd::prelude::*;

verus! {

#[verifier::external_type_specification]
#[verifier::external_body]
pub struct ExSystemTime(SystemTime);

#[verifier::external_type_specification]
#[verifier::external_body]
pub struct ExSystemTimeError(SystemTimeError);

/// The number of unused address slots that follow the system index.
pub const PLACEHOLDER_ADDRESS_COUNT: usize = 10;

/// `count` copies of the encoding of `0.0.0.0:0`.
pub open spec fn placeholder_addresses(count: nat) -> Seq<u8>
    decreases count,
{
    if count == 0 {
        Seq::empty()
    } else {
        placeholder_addresses((count - 1) as nat) + RakNetAddress::spec_unspecified_v4().spec_encode()
    }
}

/// The acceptance of a connection request.
#[derive(Debug, Clone, Copy)]
pub struct ConnectionRequestAccepted {
    pub client_address: RakNetAddress,
    pub system_index: u16,
    pub request_timestamp: u64,
    pub server_timestamp: u64,
}

impl ConnectionRequestAccepted {
    /// The bytes of the acceptance: the client address, the system index,
    /// ten placeholder addresses, the request's timestamp and the server's.
    pub open spec fn spec_encode(self) -> Seq<u8> {
        self.client_address.spec_encode() + u16_to_be(self.system_index) + placeholder_addresses(
            PLACEHOLDER_ADDRESS_COUNT as nat,
        ) + u64_to_be(self.request_timestamp) + u64_to_be(self.server_timestamp)
    }

    /// Appends the acceptance to `buf`; it always succeeds.
    pub fn serialize(&self, buf: &mut BytesMut) -> (r: Result<()>)
        requires
            buffer_contents(*old(buf)).len() + self.spec_encode().len() <= buffer_limit(),
        ensures
            r is Ok,
            buffer_contents(*final(buf)) == buffer_contents(*old(buf)) + self.spec_encode(),
    {
        let ghost s = buffer_contents(*buf);
        proof {
            lemma_placeholder_len(PLACEHOLDER_ADDRESS_COUNT as nat);
        }
        self.client_address.serialize(buf);
        buffer_put_u16(buf, self.system_index);
        let ghost head = s + self.client_address.spec_encode() + u16_to_be(self.system_index);
        assert(buffer_contents(*buf) =~= head + placeholder_addresses(0));
        let placeholder_addr = RakNetAddress::unspecified_v4();
        let mut i: usize = 0;
        while i < PLACEHOLDER_ADDRESS_COUNT
            invariant
                0 <= i <= PLACEHOLDER_ADDRESS_COUNT,
                placeholder_addr == RakNetAddress::spec_unspecified_v4(),
                buffer_contents(*buf) == head + placeholder_addresses(i as nat),
                head.len() + 70 + 16 <= buffer_limit(),
            decreases PLACEHOLDER_ADDRESS_COUNT - i,
        {
            proof {
                lemma_placeholder_len(i as nat);
            }
            placeholder_addr.serialize(buf);
            assert(buffer_contents(*buf) =~= head + placeholder_addresses((i + 1) as nat));
            i = i + 1;
        }
        buffer_put_u64(buf, self.request_timestamp);
        buffer_put_u64(buf, self.server_timestamp);
        assert(buffer_contents(*buf) =~= s + self.spec_encode());
        Ok(())
    }
}

/// Each placeholder address takes seven bytes.
pub proof fn lemma_placeholder_len(count: nat)
    ensures
        placeholder_addresses(count).len() == 7 * count,
    decreases count,
{
    if count > 0 {
        lemma_placeholder_len((count - 1) as nat);
    }
}

/// The placeholder block is `4` followed by six zeros, repeated: every
/// seventh byte, starting with the first, is `4`, and all others are zero.
pub proof fn lemma_placeholder_bytes(count: nat)
    ensures
        forall|i: int|
            0 <= i < 7 * count ==> #[trigger] placeholder_addresses(count)[i] == if i % 7 == 0 {
                4u8
            } else {
                0u8
            },
    decreases count,
{
    lemma_placeholder_len(count);
    if count > 0 {
        lemma_placeholder_bytes((count - 1) as nat);
        lemma_placeholder_len((count - 1) as nat);
        crate::raknet::protocol::address::lemma_unspecified_v4_bytes();
        let prev = placeholder_addresses((count - 1) as nat);
        let one = RakNetAddress::spec_unspecified_v4().spec_encode();
        assert forall|i: int| 0 <= i < 7 * count implies #[trigger] placeholder_addresses(count)[i]
            == if i % 7 == 0 { 4u8 } else { 0u8 } by {
            let m: int = 7 * (count - 1);
            if i < m {
                assert(placeholder_addresses(count)[i] == prev[i]);
            } else {
                let j = i - m;
                assert(placeholder_addresses(count)[i] == one[j]);
                assert(i % 7 == j) by (nonlinear_arith)
                    requires
                        i == m + j,
                        m == 7 * (count - 1),
                        0 <= j < 7,
                ;
            }
        }
    }
}

/// `SystemTime::now`: the current time of the system clock.
#[verifier::external_body]
fn clock_now() -> SystemTime {
    SystemTime::now()
}

/// `SystemTime::duration_since` the Unix epoch. It fails when the time lies
/// before the epoch; what it returns depends on the clock and is not stated.
#[verifier::external_body]
fn elapsed_since_unix_epoch(t: &SystemTime) -> core::result::Result<Duration, SystemTimeError> {
    t.duration_since(std::time::UNIX_EPOCH)
}

/// `Duration::as_millis`: the whole milliseconds in a duration. The duration
/// is opaque here, so nothing is stated of the number.
#[verifier::external_body]
fn duration_millis(d: &Duration) -> u128 {
    d.as_millis()
}

/// A RakNet timestamp from the milliseconds elapsed since the Unix epoch:
/// the count cut to 64 bits, or `0` when the clock stood before the epoch.
pub fn timestamp_from_elapsed(elapsed_millis: Option<u128>) -> (t: u64)
    ensures
        t == match elapsed_millis {
            Some(ms) => ms as u64,
            None => 0u64,
        },
{
    match elapsed_millis {
        Some(ms) => ms as u64,
        None => 0,
    }
}

/// The current RakNet timestamp: milliseconds since the Unix epoch, read
/// from the system clock; what the clock says is not stated.
pub fn get_raknet_timestamp() -> u64 {
    let now = clock_now();
    let elapsed = match elapsed_since_unix_epoch(&now) {
        Ok(d) => Some(duration_millis(&d)),
        Err(_) => None,
    };
    timestamp_from_elapsed(elapsed)
}

} // verus!
