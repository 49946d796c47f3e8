//! Fixed-width binary encoding of the persisted records.
//!
//! A sale or position record is laid out as its fields in declaration
//! order, each at its native width, integers little-endian. The layout
//! is fixed: encoding always yields the same length, and decoding
//! accepts exactly that length. Encoding and decoding are verified
//! against specification-level byte images, and a proved law states
//! that every record round-trips losslessly.

use vstd::prelude::*;
use vstd::arithmetic::div_mod::*;

use crate::address::Address;
use crate::bond::Bond;
use crate::bond_sale::BondSale;
use crate::decimal::Decimal;
use crate::token_amount::TokenAmount;

verus! {

/// `256^n`, the number of values `n` bytes can hold.
pub open spec fn pow256(n: nat) -> int
    decreases n,
{
    if n == 0 {
        1
    } else {
        256 * pow256((n - 1) as nat)
    }
}

/// The little-endian image of `x` in `n` bytes.
pub open spec fn le_bytes(x: int, n: nat) -> Seq<u8>
    decreases n,
{
    if n == 0 {
        Seq::empty()
    } else {
        seq![(x % 256) as u8] + le_bytes(x / 256, (n - 1) as nat)
    }
}

/// The value a little-endian byte string stands for.
pub open spec fn le_val(s: Seq<u8>) -> int
    decreases s.len(),
{
    if s.len() == 0 {
        0
    } else {
        s[0] + 256 * le_val(s.subrange(1, s.len() as int))
    }
}

proof fn lemma_pow256_pos(n: nat)
    ensures
        pow256(n) >= 1,
    decreases n,
{
    if n > 0 {
        lemma_pow256_pos((n - 1) as nat);
    }
}

proof fn lemma_pow256_increases(n1: nat, n2: nat)
    requires
        n1 <= n2,
    ensures
        pow256(n1) <= pow256(n2),
    decreases n2,
{
    if n2 > 0 {
        lemma_pow256_pos(n2);
        if n1 == n2 {
        } else {
            lemma_pow256_increases(n1, (n2 - 1) as nat);
            lemma_pow256_pos((n2 - 1) as nat);
        }
    }
}

proof fn lemma_le_bytes_len(x: int, n: nat)
    ensures
        le_bytes(x, n).len() == n,
    decreases n,
{
    if n > 0 {
        lemma_le_bytes_len(x / 256, (n - 1) as nat);
    }
}

/// Encoding a value in range and reading the image back gives the
/// value again.
proof fn lemma_le_round_trip(x: int, n: nat)
    requires
        0 <= x < pow256(n),
    ensures
        le_val(le_bytes(x, n)) == x,
    decreases n,
{
    if n > 0 {
        lemma_le_bytes_len(x / 256, (n - 1) as nat);
        lemma_fundamental_div_mod(x, 256);
        lemma_mod_bound(x, 256);
        lemma_div_pos_is_pos(x, 256);
        assert(x / 256 < pow256((n - 1) as nat)) by {
            lemma_multiply_divide_lt(x, 256, pow256((n - 1) as nat));
        };
        lemma_le_round_trip(x / 256, (n - 1) as nat);
        let s = le_bytes(x, n);
        assert(s.subrange(1, s.len() as int) =~= le_bytes(x / 256, (n - 1) as nat));
    }
}

/// A byte string's value is below 256 to its length.
proof fn lemma_le_val_bound(s: Seq<u8>)
    ensures
        0 <= le_val(s) < pow256(s.len()),
    decreases s.len(),
{
    if s.len() > 0 {
        lemma_le_val_bound(s.subrange(1, s.len() as int));
    }
}

/// Appends the `n`-byte little-endian image of `x`.
fn push_le(out: &mut Vec<u8>, x: u128, n: usize)
    requires
        n <= 16,
        old(out)@.len() + n <= usize::MAX,
    ensures
        final(out)@ == old(out)@ + le_bytes(x as int, n as nat),
        final(out)@.len() == old(out)@.len() + n,
{
    let ghost orig = out@;
    proof {
        lemma_le_bytes_len(x as int, n as nat);
    }
    let mut cur: u128 = x;
    let mut i: usize = 0;
    while i < n
        invariant
            i <= n <= 16,
            out@.len() == orig.len() + i,
            orig.len() + n <= usize::MAX,
            le_bytes(x as int, n as nat).len() == n,
            out@ == orig + le_bytes(x as int, n as nat).subrange(0, i as int),
            le_bytes(cur as int, (n - i) as nat) == le_bytes(x as int, n as nat).subrange(
                i as int,
                n as int,
            ),
        decreases n - i,
    {
        let b: u8 = (cur % 256) as u8;
        proof {
            assert(le_bytes(cur as int, (n - i) as nat)[0] == b);
            assert(le_bytes(x as int, n as nat)[i as int] == le_bytes(x as int, n as nat).subrange(
                i as int,
                n as int,
            )[0]);
            lemma_le_bytes_len(cur as int / 256, (n - (i + 1)) as nat);
            assert(le_bytes(cur as int, (n - i) as nat).subrange(
                1,
                (n - i) as int,
            ) =~= le_bytes(cur as int / 256, (n - (i + 1)) as nat));
            assert(le_bytes(x as int, n as nat).subrange(i as int, n as int).subrange(
                1,
                (n - i) as int,
            ) =~= le_bytes(x as int, n as nat).subrange(i + 1, n as int));
        }
        out.push(b);
        cur = cur / 256;
        i = i + 1;
        proof {
            assert(out@ =~= orig + le_bytes(x as int, n as nat).subrange(0, i as int));
        }
    }
    proof {
        assert(out@ =~= orig + le_bytes(x as int, n as nat));
    }
}

/// Reads the `n`-byte little-endian value at `off`.
fn read_le(buf: &Vec<u8>, off: usize, n: usize) -> (r: u128)
    requires
        n <= 16,
        off + n <= buf@.len(),
    ensures
        r == le_val(buf@.subrange(off as int, (off + n) as int)),
        r < pow256(n as nat),
{
    let blen: usize = buf.len();
    let mut acc: u128 = 0;
    let mut i: usize = n;
    while i > 0
        invariant
            i <= n <= 16,
            off + n <= blen,
            blen == buf@.len(),
            acc == le_val(buf@.subrange((off + i) as int, (off + n) as int)),
            acc < pow256((n - i) as nat),
        decreases i,
    {
        proof {
            lemma_le_val_bound(buf@.subrange((off + i) as int, (off + n) as int));
            lemma_pow256_increases((n - i) as nat, 15);
            assert(pow256(15) == 0x0100_0000_0000_0000_0000_0000_0000_0000) by {
                reveal_with_fuel(pow256, 17);
            };
        }
        i = i - 1;
        let b: u8 = buf[off + i];
        acc = acc * 256 + (b as u128);
        proof {
            let s = buf@.subrange((off + i) as int, (off + n) as int);
            assert(s[0] == buf@[(off + i) as int]);
            assert(s.subrange(1, s.len() as int) =~= buf@.subrange(
                (off + i + 1) as int,
                (off + n) as int,
            ));
        }
    }
    proof {
        assert(buf@.subrange((off + 0) as int, (off + n) as int) =~= buf@.subrange(
            off as int,
            (off + n) as int,
        ));
    }
    acc
}

/// Appends the 32 raw bytes of an identity.
fn push_address(out: &mut Vec<u8>, a: &Address)
    requires
        old(out)@.len() + 32 <= usize::MAX,
    ensures
        final(out)@ == old(out)@ + a.bytes@,
        final(out)@.len() == old(out)@.len() + 32,
{
    let ghost orig = out@;
    let mut i: usize = 0;
    while i < 32
        invariant
            i <= 32,
            orig.len() + 32 <= usize::MAX,
            out@ == orig + a.bytes@.subrange(0, i as int),
        decreases 32 - i,
    {
        out.push(a.bytes[i]);
        i = i + 1;
        proof {
            assert(out@ =~= orig + a.bytes@.subrange(0, i as int));
        }
    }
    proof {
        assert(out@ =~= orig + a.bytes@);
    }
}

/// Reads the 32 raw bytes of an identity at `off`.
fn read_address(buf: &Vec<u8>, off: usize) -> (r: Address)
    requires
        off + 32 <= buf@.len(),
    ensures
        r.bytes@ == buf@.subrange(off as int, (off + 32) as int),
{
    let blen: usize = buf.len();
    proof {
        assert(off + 32 <= blen);
    }
    let bytes: [u8; 32] = [
        buf[off],
        buf[off + 1],
        buf[off + 2],
        buf[off + 3],
        buf[off + 4],
        buf[off + 5],
        buf[off + 6],
        buf[off + 7],
        buf[off + 8],
        buf[off + 9],
        buf[off + 10],
        buf[off + 11],
        buf[off + 12],
        buf[off + 13],
        buf[off + 14],
        buf[off + 15],
        buf[off + 16],
        buf[off + 17],
        buf[off + 18],
        buf[off + 19],
        buf[off + 20],
        buf[off + 21],
        buf[off + 22],
        buf[off + 23],
        buf[off + 24],
        buf[off + 25],
        buf[off + 26],
        buf[off + 27],
        buf[off + 28],
        buf[off + 29],
        buf[off + 30],
        buf[off + 31],
    ];
    proof {
        assert(bytes@ =~= buf@.subrange(off as int, (off + 32) as int));
    }
    Address { bytes }
}

/// The byte length of an encoded position record.
pub const BOND_IMAGE_LEN: usize = 96;

/// The byte image of a position record: its fields in declaration
/// order, identities raw, integers little-endian at native width.
pub open spec fn bond_image(b: Bond) -> Seq<u8> {
    b.bond_sale.bytes@ + b.owner.bytes@ + le_bytes(b.bond_amount.v as int, 8) + le_bytes(
        b.last_claim as int,
        8,
    ) + le_bytes(b.vesting_start as int, 8) + le_bytes(b.vesting_end as int, 8)
}

/// Encodes a position record into its fixed 96-byte image.
pub fn encode_bond(b: &Bond) -> (r: Vec<u8>)
    ensures
        r@ == bond_image(*b),
        r@.len() == BOND_IMAGE_LEN,
{
    let mut out: Vec<u8> = Vec::new();
    push_address(&mut out, &b.bond_sale);
    push_address(&mut out, &b.owner);
    push_le(&mut out, b.bond_amount.v as u128, 8);
    push_le(&mut out, b.last_claim as u128, 8);
    push_le(&mut out, b.vesting_start as u128, 8);
    push_le(&mut out, b.vesting_end as u128, 8);
    proof {
        lemma_le_bytes_len(b.bond_amount.v as int, 8);
        lemma_le_bytes_len(b.last_claim as int, 8);
        lemma_le_bytes_len(b.vesting_start as int, 8);
        lemma_le_bytes_len(b.vesting_end as int, 8);
        assert(out@ =~= bond_image(*b));
    }
    out
}

/// Decodes a position record from its fixed 96-byte image; any other
/// length is rejected.
pub fn decode_bond(buf: &Vec<u8>) -> (r: Option<Bond>)
    ensures
        r is Some <==> buf@.len() == BOND_IMAGE_LEN,
        r matches Some(b) ==> ({
            &&& b.bond_sale.bytes@ == buf@.subrange(0, 32)
            &&& b.owner.bytes@ == buf@.subrange(32, 64)
            &&& b.bond_amount.v == le_val(buf@.subrange(64, 72))
            &&& b.last_claim == le_val(buf@.subrange(72, 80))
            &&& b.vesting_start == le_val(buf@.subrange(80, 88))
            &&& b.vesting_end == le_val(buf@.subrange(88, 96))
        }),
{
    if buf.len() != BOND_IMAGE_LEN {
        return None;
    }
    proof {
        lemma_pow256_8();
    }
    Some(
        Bond {
            bond_sale: read_address(buf, 0),
            owner: read_address(buf, 32),
            bond_amount: TokenAmount::new(read_le(buf, 64, 8) as u64),
            last_claim: read_le(buf, 72, 8) as u64,
            vesting_start: read_le(buf, 80, 8) as u64,
            vesting_end: read_le(buf, 88, 8) as u64,
        },
    )
}

/// The byte length of an encoded sale record.
pub const SALE_IMAGE_LEN: usize = 304;

/// The byte image of a sale record: its fields in declaration order,
/// identities raw, integers little-endian at native width.
pub open spec fn sale_image(s: BondSale) -> Seq<u8> {
    s.token_bond.bytes@ + s.token_quote.bytes@ + s.token_bond_account.bytes@
        + s.token_quote_account.bytes@ + s.payer.bytes@ + le_bytes(s.fee.v as int, 16) + le_bytes(
        s.fee_amount.v as int,
        8,
    ) + le_bytes(s.floor_price.v as int, 16) + le_bytes(s.previous_price.v as int, 16) + le_bytes(
        s.up_bound.v as int,
        16,
    ) + le_bytes(s.velocity.v as int, 16) + le_bytes(s.supply.v as int, 8) + le_bytes(
        s.remaining_amount.v as int,
        8,
    ) + le_bytes(s.quote_amount.v as int, 8) + le_bytes(s.end_time as int, 8) + le_bytes(
        s.start_time as int,
        8,
    ) + le_bytes(s.last_trade as int, 8) + le_bytes(s.vesting_time as int, 8)
}

/// Encodes a sale record into its fixed 304-byte image.
pub fn encode_bond_sale(s: &BondSale) -> (r: Vec<u8>)
    ensures
        r@ == sale_image(*s),
        r@.len() == SALE_IMAGE_LEN,
{
    let mut out: Vec<u8> = Vec::new();
    push_address(&mut out, &s.token_bond);
    push_address(&mut out, &s.token_quote);
    push_address(&mut out, &s.token_bond_account);
    push_address(&mut out, &s.token_quote_account);
    push_address(&mut out, &s.payer);
    push_le(&mut out, s.fee.v, 16);
    push_le(&mut out, s.fee_amount.v as u128, 8);
    push_le(&mut out, s.floor_price.v, 16);
    push_le(&mut out, s.previous_price.v, 16);
    push_le(&mut out, s.up_bound.v, 16);
    push_le(&mut out, s.velocity.v, 16);
    push_le(&mut out, s.supply.v as u128, 8);
    push_le(&mut out, s.remaining_amount.v as u128, 8);
    push_le(&mut out, s.quote_amount.v as u128, 8);
    push_le(&mut out, s.end_time as u128, 8);
    push_le(&mut out, s.start_time as u128, 8);
    push_le(&mut out, s.last_trade as u128, 8);
    push_le(&mut out, s.vesting_time as u128, 8);
    proof {
        lemma_image_field_lens(*s);
        assert(out@ =~= sale_image(*s));
    }
    out
}

/// Decodes a sale record from its fixed 304-byte image; any other
/// length is rejected.
pub fn decode_bond_sale(buf: &Vec<u8>) -> (r: Option<BondSale>)
    ensures
        r is Some <==> buf@.len() == SALE_IMAGE_LEN,
        r matches Some(s) ==> ({
            &&& s.token_bond.bytes@ == buf@.subrange(0, 32)
            &&& s.token_quote.bytes@ == buf@.subrange(32, 64)
            &&& s.token_bond_account.bytes@ == buf@.subrange(64, 96)
            &&& s.token_quote_account.bytes@ == buf@.subrange(96, 128)
            &&& s.payer.bytes@ == buf@.subrange(128, 160)
            &&& s.fee.v == le_val(buf@.subrange(160, 176))
            &&& s.fee_amount.v == le_val(buf@.subrange(176, 184))
            &&& s.floor_price.v == le_val(buf@.subrange(184, 200))
            &&& s.previous_price.v == le_val(buf@.subrange(200, 216))
            &&& s.up_bound.v == le_val(buf@.subrange(216, 232))
            &&& s.velocity.v == le_val(buf@.subrange(232, 248))
            &&& s.supply.v == le_val(buf@.subrange(248, 256))
            &&& s.remaining_amount.v == le_val(buf@.subrange(256, 264))
            &&& s.quote_amount.v == le_val(buf@.subrange(264, 272))
            &&& s.end_time == le_val(buf@.subrange(272, 280))
            &&& s.start_time == le_val(buf@.subrange(280, 288))
            &&& s.last_trade == le_val(buf@.subrange(288, 296))
            &&& s.vesting_time == le_val(buf@.subrange(296, 304))
        }),
{
    if buf.len() != SALE_IMAGE_LEN {
        return None;
    }
    proof {
        lemma_pow256_8();
    }
    Some(
        BondSale {
            token_bond: read_address(buf, 0),
            token_quote: read_address(buf, 32),
            token_bond_account: read_address(buf, 64),
            token_quote_account: read_address(buf, 96),
            payer: read_address(buf, 128),
            fee: Decimal::new(read_le(buf, 160, 16)),
            fee_amount: TokenAmount::new(read_le(buf, 176, 8) as u64),
            floor_price: Decimal::new(read_le(buf, 184, 16)),
            previous_price: Decimal::new(read_le(buf, 200, 16)),
            up_bound: Decimal::new(read_le(buf, 216, 16)),
            velocity: Decimal::new(read_le(buf, 232, 16)),
            supply: TokenAmount::new(read_le(buf, 248, 8) as u64),
            remaining_amount: TokenAmount::new(read_le(buf, 256, 8) as u64),
            quote_amount: TokenAmount::new(read_le(buf, 264, 8) as u64),
            end_time: read_le(buf, 272, 8) as u64,
            start_time: read_le(buf, 280, 8) as u64,
            last_trade: read_le(buf, 288, 8) as u64,
            vesting_time: read_le(buf, 296, 8) as u64,
        },
    )
}

/// Eight bytes hold exactly the 64-bit values.
proof fn lemma_pow256_8()
    ensures
        pow256(8) == 0x1_0000_0000_0000_0000,
{
    reveal_with_fuel(pow256, 10);
}

/// The fixed layout loses nothing: every field of a sale record is
/// recovered exactly from its own slice of the record's byte image,
/// so decoding an encoded record yields the record again, field for
/// field.
pub proof fn lemma_sale_image_lossless(s: BondSale)
    ensures
        sale_image(s).len() == SALE_IMAGE_LEN,
        sale_image(s).subrange(0, 32) == s.token_bond.bytes@,
        sale_image(s).subrange(32, 64) == s.token_quote.bytes@,
        sale_image(s).subrange(64, 96) == s.token_bond_account.bytes@,
        sale_image(s).subrange(96, 128) == s.token_quote_account.bytes@,
        sale_image(s).subrange(128, 160) == s.payer.bytes@,
        le_val(sale_image(s).subrange(160, 176)) == s.fee.v,
        le_val(sale_image(s).subrange(176, 184)) == s.fee_amount.v,
        le_val(sale_image(s).subrange(184, 200)) == s.floor_price.v,
        le_val(sale_image(s).subrange(200, 216)) == s.previous_price.v,
        le_val(sale_image(s).subrange(216, 232)) == s.up_bound.v,
        le_val(sale_image(s).subrange(232, 248)) == s.velocity.v,
        le_val(sale_image(s).subrange(248, 256)) == s.supply.v,
        le_val(sale_image(s).subrange(256, 264)) == s.remaining_amount.v,
        le_val(sale_image(s).subrange(264, 272)) == s.quote_amount.v,
        le_val(sale_image(s).subrange(272, 280)) == s.end_time,
        le_val(sale_image(s).subrange(280, 288)) == s.start_time,
        le_val(sale_image(s).subrange(288, 296)) == s.last_trade,
        le_val(sale_image(s).subrange(296, 304)) == s.vesting_time,
{
    lemma_image_field_lens(s);
    assert(sale_image(s).subrange(0, 32) =~= s.token_bond.bytes@);
    assert(sale_image(s).subrange(32, 64) =~= s.token_quote.bytes@);
    assert(sale_image(s).subrange(64, 96) =~= s.token_bond_account.bytes@);
    assert(sale_image(s).subrange(96, 128) =~= s.token_quote_account.bytes@);
    assert(sale_image(s).subrange(128, 160) =~= s.payer.bytes@);
    assert(sale_image(s).subrange(160, 176) =~= le_bytes(s.fee.v as int, 16));
    assert(sale_image(s).subrange(176, 184) =~= le_bytes(s.fee_amount.v as int, 8));
    assert(sale_image(s).subrange(184, 200) =~= le_bytes(s.floor_price.v as int, 16));
    assert(sale_image(s).subrange(200, 216) =~= le_bytes(s.previous_price.v as int, 16));
    assert(sale_image(s).subrange(216, 232) =~= le_bytes(s.up_bound.v as int, 16));
    assert(sale_image(s).subrange(232, 248) =~= le_bytes(s.velocity.v as int, 16));
    assert(sale_image(s).subrange(248, 256) =~= le_bytes(s.supply.v as int, 8));
    assert(sale_image(s).subrange(256, 264) =~= le_bytes(s.remaining_amount.v as int, 8));
    assert(sale_image(s).subrange(264, 272) =~= le_bytes(s.quote_amount.v as int, 8));
    assert(sale_image(s).subrange(272, 280) =~= le_bytes(s.end_time as int, 8));
    assert(sale_image(s).subrange(280, 288) =~= le_bytes(s.start_time as int, 8));
    assert(sale_image(s).subrange(288, 296) =~= le_bytes(s.last_trade as int, 8));
    assert(sale_image(s).subrange(296, 304) =~= le_bytes(s.vesting_time as int, 8));
    lemma_pow256_8();
    lemma_pow256_16();
    lemma_le_round_trip(s.fee.v as int, 16);
    lemma_le_round_trip(s.fee_amount.v as int, 8);
    lemma_le_round_trip(s.floor_price.v as int, 16);
    lemma_le_round_trip(s.previous_price.v as int, 16);
    lemma_le_round_trip(s.up_bound.v as int, 16);
    lemma_le_round_trip(s.velocity.v as int, 16);
    lemma_le_round_trip(s.supply.v as int, 8);
    lemma_le_round_trip(s.remaining_amount.v as int, 8);
    lemma_le_round_trip(s.quote_amount.v as int, 8);
    lemma_le_round_trip(s.end_time as int, 8);
    lemma_le_round_trip(s.start_time as int, 8);
    lemma_le_round_trip(s.last_trade as int, 8);
    lemma_le_round_trip(s.vesting_time as int, 8);
}

/// The fixed layout loses nothing: every field of a position record
/// is recovered exactly from its own slice of the record's byte
/// image, so decoding an encoded record yields the record again,
/// field for field.
pub proof fn lemma_bond_image_lossless(b: Bond)
    ensures
        bond_image(b).len() == BOND_IMAGE_LEN,
        bond_image(b).subrange(0, 32) == b.bond_sale.bytes@,
        bond_image(b).subrange(32, 64) == b.owner.bytes@,
        le_val(bond_image(b).subrange(64, 72)) == b.bond_amount.v,
        le_val(bond_image(b).subrange(72, 80)) == b.last_claim,
        le_val(bond_image(b).subrange(80, 88)) == b.vesting_start,
        le_val(bond_image(b).subrange(88, 96)) == b.vesting_end,
{
    lemma_le_bytes_len(b.bond_amount.v as int, 8);
    lemma_le_bytes_len(b.last_claim as int, 8);
    lemma_le_bytes_len(b.vesting_start as int, 8);
    lemma_le_bytes_len(b.vesting_end as int, 8);
    assert(bond_image(b).subrange(0, 32) =~= b.bond_sale.bytes@);
    assert(bond_image(b).subrange(32, 64) =~= b.owner.bytes@);
    assert(bond_image(b).subrange(64, 72) =~= le_bytes(b.bond_amount.v as int, 8));
    assert(bond_image(b).subrange(72, 80) =~= le_bytes(b.last_claim as int, 8));
    assert(bond_image(b).subrange(80, 88) =~= le_bytes(b.vesting_start as int, 8));
    assert(bond_image(b).subrange(88, 96) =~= le_bytes(b.vesting_end as int, 8));
    lemma_pow256_8();
    lemma_le_round_trip(b.bond_amount.v as int, 8);
    lemma_le_round_trip(b.last_claim as int, 8);
    lemma_le_round_trip(b.vesting_start as int, 8);
    lemma_le_round_trip(b.vesting_end as int, 8);
}

/// Sixteen bytes hold exactly the 128-bit values.
proof fn lemma_pow256_16()
    ensures
        pow256(16) == 0x1_0000_0000_0000_0000_0000_0000_0000_0000,
{
    reveal_with_fuel(pow256, 18);
}

/// The lengths of every integer field's byte image in a sale record.
proof fn lemma_image_field_lens(s: BondSale)
    ensures
        le_bytes(s.fee.v as int, 16).len() == 16,
        le_bytes(s.fee_amount.v as int, 8).len() == 8,
        le_bytes(s.floor_price.v as int, 16).len() == 16,
        le_bytes(s.previous_price.v as int, 16).len() == 16,
        le_bytes(s.up_bound.v as int, 16).len() == 16,
        le_bytes(s.velocity.v as int, 16).len() == 16,
        le_bytes(s.supply.v as int, 8).len() == 8,
        le_bytes(s.remaining_amount.v as int, 8).len() == 8,
        le_bytes(s.quote_amount.v as int, 8).len() == 8,
        le_bytes(s.end_time as int, 8).len() == 8,
        le_bytes(s.start_time as int, 8).len() == 8,
        le_bytes(s.last_trade as int, 8).len() == 8,
        le_bytes(s.vesting_time as int, 8).len() == 8,
{
    lemma_le_bytes_len(s.fee.v as int, 16);
    lemma_le_bytes_len(s.fee_amount.v as int, 8);
    lemma_le_bytes_len(s.floor_price.v as int, 16);
    lemma_le_bytes_len(s.previous_price.v as int, 16);
    lemma_le_bytes_len(s.up_bound.v as int, 16);
    lemma_le_bytes_len(s.velocity.v as int, 16);
    lemma_le_bytes_len(s.supply.v as int, 8);
    lemma_le_bytes_len(s.remaining_amount.v as int, 8);
    lemma_le_bytes_len(s.quote_amount.v as int, 8);
    lemma_le_bytes_len(s.end_time as int, 8);
    lemma_le_bytes_len(s.start_time as int, 8);
    lemma_le_bytes_len(s.last_trade as int, 8);
    lemma_le_bytes_len(s.vesting_time as int, 8);
}

} // verus!
