use vstd::prelude::*;
use vstd::string::StringSliceAdditionalSpecFns;
use vstd::utf8::{is_ascii_chars, is_ascii_chars_encode_utf8};

verus! {

/// Credentials of the notification sink.
#[derive(Debug, Clone)]
pub struct TelegramConfig {
    pub bot_token: String,
    pub user_id: String,
}

impl TelegramConfig {
    /// Both the token and the user id are given.
    pub fn is_configured(&self) -> (r: bool)
        ensures
            r == (self.bot_token@.len() > 0 && self.user_id@.len() > 0),
    {
        !self.bot_token.as_str().is_empty() && !self.user_id.as_str().is_empty()
    }
}

/// The state shared by the search and the height watcher.
#[derive(Debug)]
pub struct MiningConfig {
    pub address: String,
    pub current_height: u64,
    pub quiet_mode: bool,
    pub telegram: Option<TelegramConfig>,
}

/// The stored height after one reading: the reading where it is higher.
pub open spec fn next_height(current: u64, reading: u64) -> u64 {
    if reading > current {
        reading
    } else {
        current
    }
}

/// The stored height after a sequence of readings, from `start`.
pub open spec fn height_after(start: u64, readings: Seq<u64>) -> u64
    decreases readings.len(),
{
    if readings.len() == 0 {
        start
    } else {
        next_height(height_after(start, readings.drop_last()), readings.last())
    }
}

/// The largest of the readings, or 0 for none.
pub open spec fn max_reading(readings: Seq<u64>) -> u64
    decreases readings.len(),
{
    if readings.len() == 0 {
        0
    } else {
        next_height(max_reading(readings.drop_last()), readings.last())
    }
}

impl MiningConfig {
    /// A fresh state: no height seen yet.
    pub fn new(address: String, quiet_mode: bool, telegram: Option<TelegramConfig>) -> (r: Self)
        ensures
            r.address == address,
            r.current_height == 0,
            r.quiet_mode == quiet_mode,
            r.telegram == telegram,
    {
        MiningConfig { address, current_height: 0, quiet_mode, telegram }
    }

    /// Takes a height reading; the stored height never decreases.
    pub fn update_height(&mut self, reading: u64)
        ensures
            final(self).current_height == next_height(old(self).current_height, reading),
            final(self).address == old(self).address,
            final(self).quiet_mode == old(self).quiet_mode,
            final(self).telegram == old(self).telegram,
    {
        if reading > self.current_height {
            self.current_height = reading;
        }
    }

    /// A job started at height `work_on` is stale once a higher height is stored.
    pub fn is_stale(&self, work_on: u64) -> (r: bool)
        ensures
            r == (self.current_height > work_on),
    {
        self.current_height > work_on
    }
}

/// After any sequence of readings the stored height is the maximum of the
/// start and all readings, whatever their order: no reading and not the start
/// is above it, and it is the start or one of the readings. From a fresh
/// state it is the largest reading.
pub proof fn lemma_height_is_max(start: u64, readings: Seq<u64>)
    ensures
        height_after(start, readings) == next_height(start, max_reading(readings)),
        height_after(0, readings) == max_reading(readings),
        start <= height_after(start, readings),
        forall|i: int| 0 <= i < readings.len() ==> #[trigger] readings[i] <= height_after(start, readings),
        height_after(start, readings) == start || exists|i: int|
            0 <= i < readings.len() && #[trigger] readings[i] == height_after(start, readings),
    decreases readings.len(),
{
    if readings.len() > 0 {
        let rest = readings.drop_last();
        lemma_height_is_max(start, rest);
        lemma_height_is_max(0, rest);
        assert forall|i: int| 0 <= i < readings.len() implies #[trigger] readings[i] <= height_after(
            start,
            readings,
        ) by {
            if i < readings.len() - 1 {
                assert(readings[i] == rest[i]);
            }
        }
        if height_after(start, readings) != start {
            if height_after(start, readings) == readings.last() {
                assert(readings[readings.len() - 1] == height_after(start, readings));
            } else {
                let j = choose|j: int|
                    0 <= j < rest.len() && #[trigger] rest[j] == height_after(start, rest);
                assert(readings[j] == rest[j]);
            }
        }
    }
}

/// The stored height never decreases as readings arrive: after a longer
/// prefix of the readings it is at least what it was after a shorter one.
pub proof fn lemma_height_monotone(start: u64, readings: Seq<u64>, i: int, j: int)
    requires
        0 <= i <= j <= readings.len(),
    ensures
        height_after(start, readings.subrange(0, i)) <= height_after(start, readings.subrange(0, j)),
    decreases j - i,
{
    if i < j {
        lemma_height_monotone(start, readings, i, j - 1);
        assert(readings.subrange(0, j).drop_last() =~= readings.subrange(0, j - 1));
    }
}

/// Whether `char::is_alphanumeric` holds of a character.
pub uninterp spec fn alphanumeric(c: char) -> bool;

/// Relies on char::is_alphanumeric: Unicode letters and numbers; among ASCII
/// characters exactly the digits and the Latin letters.
#[verifier::external_body]
fn is_alphanumeric(c: char) -> (r: bool)
    ensures
        r == alphanumeric(c),
        c <= '\u{7f}' ==> (r <==> (('0' <= c && c <= '9') || ('a' <= c && c <= 'z') || ('A' <= c
            && c <= 'Z'))),
{
    c.is_alphanumeric()
}

/// A character an address may hold: alphanumeric, but not `0`, `O`, `I`, `l`.
pub open spec fn address_char(c: char) -> bool {
    alphanumeric(c) && c != '0' && c != 'O' && c != 'I' && c != 'l'
}

/// The advisory address check: 26 to 35 bytes, each character allowed.
pub open spec fn address_looks_valid(address: &str) -> bool {
    &&& 26 <= address.spec_bytes().len() <= 35
    &&& forall|i: int| 0 <= i < address@.len() ==> #[trigger] address_char(address@[i])
}

/// An ASCII character an address may hold: a digit or Latin letter, but not
/// `0`, `O`, `I`, `l`.
pub open spec fn ascii_address_char(c: char) -> bool {
    &&& (('0' <= c && c <= '9') || ('a' <= c && c <= 'z') || ('A' <= c && c <= 'Z'))
    &&& c != '0' && c != 'O' && c != 'I' && c != 'l'
}

/// Checks the length and character set of a payout address. For an ASCII
/// address: 26 to 35 characters, each a digit or Latin letter other than
/// `0`, `O`, `I`, `l`.
pub fn validate_bitcoin_address(address: &str) -> (r: bool)
    ensures
        r == address_looks_valid(address),
        is_ascii_chars(address@) ==> (r == (26 <= address@.len() <= 35 && forall|i: int|
            0 <= i < address@.len() ==> #[trigger] ascii_address_char(address@[i]))),
{
    proof {
        if is_ascii_chars(address@) {
            is_ascii_chars_encode_utf8(address@);
        }
    }
    let bytes = address.as_bytes();
    if bytes.len() < 26 || bytes.len() > 35 {
        return false;
    }
    let n = address.unicode_len();
    let mut i: usize = 0;
    while i < n
        invariant
            i <= n,
            n == address@.len(),
            26 <= address.spec_bytes().len() <= 35,
            forall|j: int| 0 <= j < i ==> #[trigger] address_char(address@[j]),
            forall|j: int|
                0 <= j < i && address@[j] <= '\u{7f}' ==> #[trigger] ascii_address_char(
                    address@[j],
                ),
            is_ascii_chars(address@) ==> address.spec_bytes().len() == address@.len(),
        decreases n - i,
    {
        let c = address.get_char(i);
        if !(is_alphanumeric(c) && c != '0' && c != 'O' && c != 'I' && c != 'l') {
            assert(!address_char(address@[i as int]));
            assert(is_ascii_chars(address@) ==> address@[i as int] <= '\u{7f}');
            assert(is_ascii_chars(address@) ==> !ascii_address_char(address@[i as int]));
            return false;
        }
        i = i + 1;
    }
    true
}

} // verus!
