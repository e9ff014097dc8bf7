//! The `ctoken` that hot projects require on their order requests: a
//! 16-byte record of simulated browser activity, widened to UTF-16 and
//! Base64-encoded.
use vstd::prelude::*;
use base64::Engine;
use rand::Rng;

verus! {

/// The simulated browser state a token is built from.
pub struct CTokenGenerator {
    pub ticket_collection_t: u64,
    pub time_offset: i64,
    pub stay_time: u64,
    pub touch_event: u32,
    pub visibility_change: u32,
    pub page_unload: u32,
    pub timer: u32,
    pub time_difference: u32,
    pub scroll_x: u32,
    pub scroll_y: u32,
    pub inner_width: u32,
    pub inner_height: u32,
    pub outer_width: u32,
    pub outer_height: u32,
    pub screen_x: u32,
    pub screen_y: u32,
    pub screen_width: u32,
    pub screen_height: u32,
    pub screen_avail_width: u32,
}

/// The ASCII code of the standard Base64 digit for the 6-bit value `v`:
/// `A`-`Z`, `a`-`z`, `0`-`9`, `+`, `/`.
pub open spec fn b64_digit(v: int) -> u8 {
    if v < 26 {
        (65 + v) as u8
    } else if v < 52 {
        (97 + (v - 26)) as u8
    } else if v < 62 {
        (48 + (v - 52)) as u8
    } else if v == 62 {
        43u8
    } else {
        47u8
    }
}

/// The padded standard Base64 text of `data`, as ASCII codes: every three
/// bytes give four digits; a last one or two bytes give two or three digits,
/// padded with `=` to four.
pub open spec fn base64_ascii(data: Seq<u8>) -> Seq<u8>
    decreases data.len(),
{
    if data.len() == 0 {
        seq![]
    } else {
        let a = data[0] as int;
        if data.len() == 1 {
            seq![b64_digit(a / 4), b64_digit((a % 4) * 16), 61u8, 61u8]
        } else {
            let b = data[1] as int;
            if data.len() == 2 {
                seq![b64_digit(a / 4), b64_digit((a % 4) * 16 + b / 16), b64_digit((b % 16) * 4), 61u8]
            } else {
                let c = data[2] as int;
                seq![
                    b64_digit(a / 4),
                    b64_digit((a % 4) * 16 + b / 16),
                    b64_digit((b % 16) * 4 + c / 64),
                    b64_digit(c % 64),
                ] + base64_ascii(data.skip(3))
            }
        }
    }
}

/// The standard (padded) Base64 encoding of `data`.
pub open spec fn base64_standard(data: Seq<u8>) -> Seq<char> {
    base64_ascii(data).map_values(|c: u8| c as char)
}

/// Encodes `data` with `base64::engine::general_purpose::STANDARD`, the
/// standard alphabet with `=` padding. The contract claims that the text is
/// `base64_standard(data)`, as the crate documents that engine.
#[verifier::external_body]
fn base64_standard_encode(data: &[u8]) -> (r: String)
    ensures
        r@ == base64_standard(data@),
{
    base64::engine::general_purpose::STANDARD.encode(data)
}

/// Calls `rand::Rng::gen_range(lo..hi)` on the thread RNG. The contract claims
/// only that the number lies in `lo..hi`, as the crate documents.
#[verifier::external_body]
fn random_in_range(lo: u32, hi: u32) -> (r: u32)
    requires
        lo < hi,
    ensures
        lo <= r < hi,
{
    rand::thread_rng().gen_range(lo..hi)
}

/// Whole seconds since the Unix epoch (`SystemTime::now`), 0 if the clock is
/// before it. Nothing is claimed of the value.
#[verifier::external_body]
fn unix_now_secs() -> i64 {
    std::time::SystemTime::now().duration_since(std::time::UNIX_EPOCH).unwrap_or_default().as_secs()
        as i64
}

/// Seconds on the page at Unix time `now`: `now + time_offset - collected`
/// in wrapping `i64` arithmetic, then truncated to `u32`.
pub open spec fn time_on_page(now: i64, time_offset: i64, collected: u64) -> u32 {
    vstd::wrapping::i64_specs::wrapping_sub(
        vstd::wrapping::i64_specs::wrapping_add(now, time_offset),
        collected as i64,
    ) as u32
}

/// A one-byte field: the value, capped at 255.
pub open spec fn byte_field(v: u32) -> u8 {
    if v > 255 { 255 } else { v as u8 }
}

/// The high byte of a two-byte field: the value capped at 65535, shifted right by 8.
pub open spec fn word_high(v: u32) -> u8 {
    ((if v > 65535 { 65535 } else { v }) / 256) as u8
}

/// The low byte of a two-byte field.
pub open spec fn word_low(v: u32) -> u8 {
    ((if v > 65535 { 65535 } else { v }) % 256) as u8
}

/// The 16-byte record: one-byte fields at offsets 0..8 and 12..16, the timer
/// at 8..10 and the time difference at 10..12 (big-endian).
pub open spec fn token_buffer(g: CTokenGenerator) -> Seq<u8> {
    seq![
        byte_field(g.touch_event),
        byte_field(g.scroll_x),
        byte_field(g.visibility_change),
        byte_field(g.scroll_y),
        byte_field(g.inner_width),
        byte_field(g.page_unload),
        byte_field(g.inner_height),
        byte_field(g.outer_width),
        word_high(g.timer),
        word_low(g.timer),
        word_high(g.time_difference),
        word_low(g.time_difference),
        byte_field(g.outer_height),
        byte_field(g.screen_x),
        byte_field(g.screen_y),
        byte_field(g.screen_width),
    ]
}

/// Each byte followed by a zero byte (the record read as UTF-16LE code units).
pub open spec fn widen(b: Seq<u8>) -> Seq<u8> {
    Seq::new(2 * b.len(), |i: int| if i % 2 == 0 { b[i / 2] } else { 0u8 })
}

/// The token a generator in state `g` encodes to.
pub open spec fn encode_spec(g: CTokenGenerator) -> Seq<char> {
    base64_standard(widen(token_buffer(g)))
}

fn byte_of(v: u32) -> (r: u8)
    ensures
        r == byte_field(v),
{
    if v > 255 {
        255
    } else {
        v as u8
    }
}

fn capped_word(v: u32) -> (r: u32)
    ensures
        r == (if v > 65535 { 65535 } else { v }),
{
    if v > 65535 {
        65535
    } else {
        v
    }
}

impl CTokenGenerator {
    /// A generator for a ticket page opened at `ticket_collection_t` (Unix
    /// seconds), with the given clock offset and page stay time; all simulated
    /// activity starts at zero.
    pub fn new(ticket_collection_t: u64, time_offset: i64, stay_time: u64) -> (g: Self)
        ensures
            g.ticket_collection_t == ticket_collection_t,
            g.time_offset == time_offset,
            g.stay_time == stay_time,
            g.touch_event == 0 && g.visibility_change == 0 && g.page_unload == 0,
            g.timer == 0 && g.time_difference == 0,
            g.scroll_x == 0 && g.scroll_y == 0,
            g.inner_width == 0 && g.inner_height == 0,
            g.outer_width == 0 && g.outer_height == 0,
            g.screen_x == 0 && g.screen_y == 0,
            g.screen_width == 0 && g.screen_height == 0 && g.screen_avail_width == 0,
    {
        CTokenGenerator {
            ticket_collection_t,
            time_offset,
            stay_time,
            touch_event: 0,
            visibility_change: 0,
            page_unload: 0,
            timer: 0,
            time_difference: 0,
            scroll_x: 0,
            scroll_y: 0,
            inner_width: 0,
            inner_height: 0,
            outer_width: 0,
            outer_height: 0,
            screen_x: 0,
            screen_y: 0,
            screen_width: 0,
            screen_height: 0,
            screen_avail_width: 0,
        }
    }

    /// The 16-byte record of the current state.
    pub fn token_bytes(&self) -> (r: Vec<u8>)
        ensures
            r@ == token_buffer(*self),
    {
        let timer = capped_word(self.timer);
        let diff = capped_word(self.time_difference);
        let r: Vec<u8> = vec![
            byte_of(self.touch_event),
            byte_of(self.scroll_x),
            byte_of(self.visibility_change),
            byte_of(self.scroll_y),
            byte_of(self.inner_width),
            byte_of(self.page_unload),
            byte_of(self.inner_height),
            byte_of(self.outer_width),
            (timer / 256) as u8,
            (timer % 256) as u8,
            (diff / 256) as u8,
            (diff % 256) as u8,
            byte_of(self.outer_height),
            byte_of(self.screen_x),
            byte_of(self.screen_y),
            byte_of(self.screen_width),
        ];
        assert(r@ =~= token_buffer(*self));
        r
    }

    /// Encodes the current state as a token.
    pub fn encode(&self) -> (r: String)
        ensures
            r@ == encode_spec(*self),
    {
        let buffer = self.token_bytes();
        let mut wide: Vec<u8> = Vec::new();
        let mut i: usize = 0;
        while i < buffer.len()
            invariant
                i <= buffer.len() == 16,
                wide@ =~= widen(buffer@.take(i as int)),
            decreases buffer.len() - i,
        {
            wide.push(buffer[i]);
            wide.push(0);
            i = i + 1;
            assert(wide@ =~= widen(buffer@.take(i as int)));
        }
        assert(buffer@.take(16) =~= buffer@);
        base64_standard_encode(wide.as_slice())
    }

    /// Simulates a visit and returns its token. For an order (`is_create_v2`)
    /// the timer is the time on the page, measured from the collection time and
    /// the clock offset, plus the stay time; otherwise it is the stay time alone
    /// and the touch count is random (3..10). The screen height (1000..3000) and
    /// available width (1..100) are random. Casts to `u32` wrap, as do the
    /// additions.
    pub fn generate_ctoken(&mut self, is_create_v2: bool) -> (r: String)
        ensures
            r@ == encode_spec(*final(self)),
            final(self).ticket_collection_t == old(self).ticket_collection_t,
            final(self).time_offset == old(self).time_offset,
            final(self).stay_time == old(self).stay_time,
            final(self).visibility_change == 2,
            final(self).inner_width == 255 && final(self).inner_height == 255,
            final(self).outer_width == 255 && final(self).outer_height == 255,
            final(self).screen_width == 255,
            1000 <= final(self).screen_height < 3000,
            1 <= final(self).screen_avail_width < 100,
            final(self).scroll_x == old(self).scroll_x && final(self).scroll_y == old(self).scroll_y,
            final(self).screen_x == old(self).screen_x && final(self).screen_y == old(self).screen_y,
            is_create_v2 ==> {
                &&& final(self).touch_event == 255
                &&& final(self).page_unload == 25
                &&& exists|now: i64|
                    final(self).time_difference == #[trigger] time_on_page(
                        now,
                        old(self).time_offset,
                        old(self).ticket_collection_t,
                    )
                &&& final(self).timer == vstd::wrapping::u64_specs::wrapping_add(
                    final(self).time_difference as u64,
                    old(self).stay_time,
                ) as u32
            },
            !is_create_v2 ==> {
                &&& 3 <= final(self).touch_event < 10
                &&& final(self).page_unload == old(self).page_unload
                &&& final(self).time_difference == 0
                &&& final(self).timer == old(self).stay_time as u32
            },
    {
        self.touch_event = 255;
        self.visibility_change = 2;
        self.inner_width = 255;
        self.inner_height = 255;
        self.outer_width = 255;
        self.outer_height = 255;
        self.screen_width = 255;
        self.screen_height = random_in_range(1000, 3000);
        self.screen_avail_width = random_in_range(1, 100);
        if is_create_v2 {
            let now = unix_now_secs();
            let collected = self.ticket_collection_t as i64;
            let d = now.wrapping_add(self.time_offset).wrapping_sub(collected);
            self.time_difference = d as u32;
            assert(self.time_difference == time_on_page(now, self.time_offset, self.ticket_collection_t));
            self.timer = (self.time_difference as u64).wrapping_add(self.stay_time) as u32;
            self.page_unload = 25;
        } else {
            self.time_difference = 0;
            self.timer = self.stay_time as u32;
            self.touch_event = random_in_range(3, 10);
        }
        self.encode()
    }
}

} // verus!
