//! The binary wire format shared by the protocol events and the stored records.
//!
//! Integers are written big-endian; a value is read back from a byte buffer at
//! a position, and the position after it is returned with it.

use vstd::prelude::*;
use vstd::utf8::*;

verus! {

broadcast use vstd::seq_lib::group_seq_properties;

/// Why a value could not be read from a buffer.
#[derive(Clone, Copy, Debug, PartialEq, Eq, Structural)]
pub enum ReadError {
    /// The buffer ended before the value did.
    UnexpectedEof,
    /// A string's bytes are not UTF-8.
    InvalidUtf8,
    /// An event body carries a type tag that names no event.
    UnknownEventType,
    /// A member record carries an online status that names no status.
    UnknownOnlineStatus,
}

/// `256` to the power `n`.
pub open spec fn pow256(n: nat) -> nat
    decreases n,
{
    if n == 0 {
        1
    } else {
        256 * pow256((n - 1) as nat)
    }
}

/// The `n` low bytes of `v`, most significant first.
pub open spec fn be_bytes(v: nat, n: nat) -> Seq<u8>
    decreases n,
{
    if n == 0 {
        Seq::empty()
    } else {
        be_bytes(v / 256, (n - 1) as nat).push((v % 256) as u8)
    }
}

/// The number whose big-endian bytes are `s`.
pub open spec fn be_value(s: Seq<u8>) -> nat
    decreases s.len(),
{
    if s.len() == 0 {
        0
    } else {
        be_value(s.drop_last()) * 256 + s.last() as nat
    }
}

/// The bytes of `buf` from `pos` on.
pub open spec fn from_pos(buf: Seq<u8>, pos: int) -> Seq<u8> {
    buf.subrange(pos, buf.len() as int)
}

proof fn lemma_mul_add_bound(a: int, b: int, p: int)
    by (nonlinear_arith)
    requires
        0 <= a < p,
        0 <= b < 256,
    ensures
        a * 256 + b < p * 256,
{
}

proof fn lemma_div_bound(v: int, p: int)
    by (nonlinear_arith)
    requires
        0 <= v < 256 * p,
    ensures
        v / 256 < p,
{
}

proof fn lemma_div_mod(v: int)
    by (nonlinear_arith)
    requires
        0 <= v,
    ensures
        (v / 256) * 256 + v % 256 == v,
        0 <= v % 256 < 256,
{
}

pub proof fn lemma_pow256_pos(n: nat)
    ensures
        pow256(n) >= 1,
    decreases n,
{
    if n > 0 {
        lemma_pow256_pos((n - 1) as nat);
    }
}

pub proof fn lemma_pow256_mono(a: nat, b: nat)
    requires
        a <= b,
    ensures
        pow256(a) <= pow256(b),
    decreases b,
{
    if a < b {
        lemma_pow256_mono(a, (b - 1) as nat);
        lemma_pow256_pos((b - 1) as nat);
    }
}

pub proof fn lemma_pow256_values()
    ensures
        pow256(1) == 0x100,
        pow256(2) == 0x1_0000,
        pow256(4) == 0x1_0000_0000,
        pow256(8) == 0x1_0000_0000_0000_0000,
        pow256(16) == 0x1_0000_0000_0000_0000_0000_0000_0000_0000,
{
    reveal_with_fuel(pow256, 17);
}

pub proof fn lemma_be_bytes_len(v: nat, n: nat)
    ensures
        be_bytes(v, n).len() == n,
    decreases n,
{
    if n > 0 {
        lemma_be_bytes_len(v / 256, (n - 1) as nat);
    }
}

pub proof fn lemma_be_value_bound(s: Seq<u8>)
    ensures
        be_value(s) < pow256(s.len()),
    decreases s.len(),
{
    if s.len() > 0 {
        lemma_be_value_bound(s.drop_last());
        lemma_mul_add_bound(be_value(s.drop_last()) as int, s.last() as int, pow256((s.len() - 1) as nat) as int);
    }
}

/// Reading back the bytes of a number that fits gives the number.
pub proof fn lemma_be_roundtrip(v: nat, n: nat)
    requires
        v < pow256(n),
    ensures
        be_bytes(v, n).len() == n,
        be_value(be_bytes(v, n)) == v,
    decreases n,
{
    lemma_be_bytes_len(v, n);
    if n > 0 {
        lemma_div_bound(v as int, pow256((n - 1) as nat) as int);
        lemma_be_roundtrip(v / 256, (n - 1) as nat);
        lemma_div_mod(v as int);
        let b = be_bytes(v, n);
        assert(b.drop_last() =~= be_bytes(v / 256, (n - 1) as nat));
    }
}

/// Appends the `n` low bytes of `v`, most significant first.
fn write_be(out: &mut Vec<u8>, v: u128, n: usize)
    ensures
        final(out)@ == old(out)@ + be_bytes(v as nat, n as nat),
    decreases n,
{
    if n > 0 {
        write_be(out, v / 256, n - 1);
        let ghost mid = out@;
        out.push((v % 256) as u8);
        assert(out@ =~= old(out)@ + be_bytes(v as nat, n as nat));
    } else {
        assert(out@ =~= old(out)@ + be_bytes(v as nat, n as nat));
    }
}

/// The number whose big-endian bytes are the `n` bytes of `buf` at `pos`.
fn read_be(buf: &[u8], pos: usize, n: usize) -> (r: u128)
    requires
        n <= 16,
        pos + n <= buf@.len(),
    ensures
        r as nat == be_value(buf@.subrange(pos as int, pos + n)),
{
    let mut acc: u128 = 0;
    let mut i: usize = 0;
    proof {
        lemma_pow256_values();
        assert(buf@.subrange(pos as int, pos as int) =~= Seq::<u8>::empty());
    }
    while i < n
        invariant
            i <= n,
            n <= 16,
            pos + n <= buf.len(),
            acc as nat == be_value(buf@.subrange(pos as int, pos + i)),
            acc < pow256(i as nat),
            pow256(16) == 0x1_0000_0000_0000_0000_0000_0000_0000_0000,
        decreases n - i,
    {
        let b = buf[pos + i];
        proof {
            lemma_mul_add_bound(acc as int, b as int, pow256(i as nat) as int);
            lemma_pow256_mono((i + 1) as nat, 16);
            let t = buf@.subrange(pos as int, pos + i + 1);
            assert(t.drop_last() =~= buf@.subrange(pos as int, pos + i));
        }
        acc = acc * 256 + b as u128;
        i = i + 1;
    }
    acc
}

/// A value with a binary form: what is written, what is read back, and the
/// values for which reading gives back what was written.
pub trait Ser: View + Sized {
    /// The bytes written for a value whose model is `v`.
    spec fn spec_write(v: Self::V) -> Seq<u8>;

    /// What is read from the front of `s`: the model of the value and the
    /// number of bytes it took, or why nothing could be read.
    spec fn spec_read(s: Seq<u8>) -> Result<(Self::V, nat), ReadError>;

    /// The models that read back as written.
    spec fn spec_wf(v: Self::V) -> bool;

    /// Reading the bytes written for `v`, whatever follows them, gives back
    /// `v` and the number of bytes written.
    proof fn lemma_write_read(v: Self::V, rest: Seq<u8>)
        requires
            Self::spec_wf(v),
        ensures
            Self::spec_read(Self::spec_write(v) + rest) == Ok::<(Self::V, nat), ReadError>(
                (v, Self::spec_write(v).len()),
            ),
    ;

    /// Appends the binary form of `self` to `out`.
    fn write(&self, out: &mut Vec<u8>)
        ensures
            final(out)@ == old(out)@ + Self::spec_write(self@),
    ;

    /// Reads a value from `buf` at `pos`; returns it with the position after it.
    fn read(buf: &[u8], pos: usize) -> (res: Result<(Self, usize), ReadError>)
        requires
            pos <= buf@.len(),
        ensures
            res matches Ok((_, p)) ==> pos <= p <= buf@.len(),
            match Self::spec_read(from_pos(buf@, pos as int)) {
                Ok((v, n)) => res matches Ok((x, p)) && x@ == v && p == pos + n,
                Err(e) => res matches Err(f) && f == e,
            },
    ;
}

/// The bytes of `buf` from `p` on are those from `pos` on, less the first `p - pos`.
pub proof fn lemma_from_pos_skip(buf: Seq<u8>, pos: int, p: int)
    requires
        0 <= pos <= p <= buf.len(),
    ensures
        from_pos(buf, p) == from_pos(buf, pos).skip(p - pos),
{
    assert(from_pos(buf, p) =~= from_pos(buf, pos).skip(p - pos));
}

/// The bytes at the front of `a + (b + rest)`, past `a`, are `b + rest`.
pub proof fn lemma_skip_front(a: Seq<u8>, b: Seq<u8>)
    ensures
        (a + b).skip(a.len() as int) == b,
{
    assert((a + b).skip(a.len() as int) =~= b);
}

impl Ser for u8 {
    open spec fn spec_write(v: u8) -> Seq<u8> {
        seq![v]
    }

    open spec fn spec_read(s: Seq<u8>) -> Result<(u8, nat), ReadError> {
        if s.len() < 1 {
            Err(ReadError::UnexpectedEof)
        } else {
            Ok((s[0], 1))
        }
    }

    open spec fn spec_wf(v: u8) -> bool {
        true
    }

    proof fn lemma_write_read(v: u8, rest: Seq<u8>) {
    }

    fn write(&self, out: &mut Vec<u8>) {
        out.push(*self);
    }

    fn read(buf: &[u8], pos: usize) -> (res: Result<(u8, usize), ReadError>) {
        if pos >= buf.len() {
            Err(ReadError::UnexpectedEof)
        } else {
            Ok((buf[pos], pos + 1))
        }
    }
}

impl Ser for bool {
    open spec fn spec_write(v: bool) -> Seq<u8> {
        seq![if v { 1u8 } else { 0u8 }]
    }

    open spec fn spec_read(s: Seq<u8>) -> Result<(bool, nat), ReadError> {
        if s.len() < 1 {
            Err(ReadError::UnexpectedEof)
        } else {
            Ok((s[0] != 0, 1))
        }
    }

    open spec fn spec_wf(v: bool) -> bool {
        true
    }

    proof fn lemma_write_read(v: bool, rest: Seq<u8>) {
    }

    fn write(&self, out: &mut Vec<u8>) {
        if *self {
            out.push(1);
        } else {
            out.push(0);
        }
    }

    fn read(buf: &[u8], pos: usize) -> (res: Result<(bool, usize), ReadError>) {
        if pos >= buf.len() {
            Err(ReadError::UnexpectedEof)
        } else {
            Ok((buf[pos] != 0, pos + 1))
        }
    }
}

impl Ser for u16 {
    open spec fn spec_write(v: u16) -> Seq<u8> {
        be_bytes(v as nat, 2)
    }

    open spec fn spec_read(s: Seq<u8>) -> Result<(u16, nat), ReadError> {
        if s.len() < 2 {
            Err(ReadError::UnexpectedEof)
        } else {
            Ok((be_value(s.take(2)) as u16, 2))
        }
    }

    open spec fn spec_wf(v: u16) -> bool {
        true
    }

    proof fn lemma_write_read(v: u16, rest: Seq<u8>) {
        lemma_pow256_values();
        lemma_be_roundtrip(v as nat, 2);
        assert((be_bytes(v as nat, 2) + rest).take(2) =~= be_bytes(v as nat, 2));
    }

    fn write(&self, out: &mut Vec<u8>) {
        write_be(out, *self as u128, 2);
    }

    fn read(buf: &[u8], pos: usize) -> (res: Result<(u16, usize), ReadError>) {
        if buf.len() - pos < 2 {
            Err(ReadError::UnexpectedEof)
        } else {
            let r = read_be(buf, pos, 2);
            proof {
                lemma_pow256_values();
                lemma_be_value_bound(buf@.subrange(pos as int, pos + 2));
                assert(from_pos(buf@, pos as int).take(2) =~= buf@.subrange(pos as int, pos + 2));
            }
            Ok((r as u16, pos + 2))
        }
    }
}

impl Ser for u32 {
    open spec fn spec_write(v: u32) -> Seq<u8> {
        be_bytes(v as nat, 4)
    }

    open spec fn spec_read(s: Seq<u8>) -> Result<(u32, nat), ReadError> {
        if s.len() < 4 {
            Err(ReadError::UnexpectedEof)
        } else {
            Ok((be_value(s.take(4)) as u32, 4))
        }
    }

    open spec fn spec_wf(v: u32) -> bool {
        true
    }

    proof fn lemma_write_read(v: u32, rest: Seq<u8>) {
        lemma_pow256_values();
        lemma_be_roundtrip(v as nat, 4);
        assert((be_bytes(v as nat, 4) + rest).take(4) =~= be_bytes(v as nat, 4));
    }

    fn write(&self, out: &mut Vec<u8>) {
        write_be(out, *self as u128, 4);
    }

    fn read(buf: &[u8], pos: usize) -> (res: Result<(u32, usize), ReadError>) {
        if buf.len() - pos < 4 {
            Err(ReadError::UnexpectedEof)
        } else {
            let r = read_be(buf, pos, 4);
            proof {
                lemma_pow256_values();
                lemma_be_value_bound(buf@.subrange(pos as int, pos + 4));
                assert(from_pos(buf@, pos as int).take(4) =~= buf@.subrange(pos as int, pos + 4));
            }
            Ok((r as u32, pos + 4))
        }
    }
}

impl Ser for u64 {
    open spec fn spec_write(v: u64) -> Seq<u8> {
        be_bytes(v as nat, 8)
    }

    open spec fn spec_read(s: Seq<u8>) -> Result<(u64, nat), ReadError> {
        if s.len() < 8 {
            Err(ReadError::UnexpectedEof)
        } else {
            Ok((be_value(s.take(8)) as u64, 8))
        }
    }

    open spec fn spec_wf(v: u64) -> bool {
        true
    }

    proof fn lemma_write_read(v: u64, rest: Seq<u8>) {
        lemma_pow256_values();
        lemma_be_roundtrip(v as nat, 8);
        assert((be_bytes(v as nat, 8) + rest).take(8) =~= be_bytes(v as nat, 8));
    }

    fn write(&self, out: &mut Vec<u8>) {
        write_be(out, *self as u128, 8);
    }

    fn read(buf: &[u8], pos: usize) -> (res: Result<(u64, usize), ReadError>) {
        if buf.len() - pos < 8 {
            Err(ReadError::UnexpectedEof)
        } else {
            let r = read_be(buf, pos, 8);
            proof {
                lemma_pow256_values();
                lemma_be_value_bound(buf@.subrange(pos as int, pos + 8));
                assert(from_pos(buf@, pos as int).take(8) =~= buf@.subrange(pos as int, pos + 8));
            }
            Ok((r as u64, pos + 8))
        }
    }
}

impl Ser for u128 {
    open spec fn spec_write(v: u128) -> Seq<u8> {
        be_bytes(v as nat, 16)
    }

    open spec fn spec_read(s: Seq<u8>) -> Result<(u128, nat), ReadError> {
        if s.len() < 16 {
            Err(ReadError::UnexpectedEof)
        } else {
            Ok((be_value(s.take(16)) as u128, 16))
        }
    }

    open spec fn spec_wf(v: u128) -> bool {
        true
    }

    proof fn lemma_write_read(v: u128, rest: Seq<u8>) {
        lemma_pow256_values();
        lemma_be_roundtrip(v as nat, 16);
        assert((be_bytes(v as nat, 16) + rest).take(16) =~= be_bytes(v as nat, 16));
    }

    fn write(&self, out: &mut Vec<u8>) {
        write_be(out, *self, 16);
    }

    fn read(buf: &[u8], pos: usize) -> (res: Result<(u128, usize), ReadError>) {
        if buf.len() - pos < 16 {
            Err(ReadError::UnexpectedEof)
        } else {
            let r = read_be(buf, pos, 16);
            proof {
                assert(from_pos(buf@, pos as int).take(16) =~= buf@.subrange(pos as int, pos + 16));
            }
            Ok((r, pos + 16))
        }
    }
}

/// The models of the values in `s`.
pub open spec fn views<T: View>(s: Seq<T>) -> Seq<T::V> {
    s.map_values(|x: T| x@)
}

/// Every model in `vs` reads back as written.
pub open spec fn all_wf<T: Ser>(vs: Seq<T::V>) -> bool {
    forall|i: int| 0 <= i < vs.len() ==> #[trigger] T::spec_wf(vs[i])
}

/// The bytes written for the values `vs`, one after the other.
pub open spec fn spec_write_items<T: Ser>(vs: Seq<T::V>) -> Seq<u8>
    decreases vs.len(),
{
    if vs.len() == 0 {
        Seq::empty()
    } else {
        spec_write_items::<T>(vs.drop_last()) + T::spec_write(vs.last())
    }
}

/// What is read from `s` as `n` values one after the other.
pub open spec fn spec_read_items<T: Ser>(s: Seq<u8>, n: nat) -> Result<(Seq<T::V>, nat), ReadError>
    decreases n,
{
    if n == 0 {
        Ok((Seq::empty(), 0))
    } else {
        match spec_read_items::<T>(s, (n - 1) as nat) {
            Err(e) => Err(e),
            Ok((vs, m)) => match T::spec_read(s.skip(m as int)) {
                Err(e) => Err(e),
                Ok((v, k)) => Ok((vs.push(v), m + k)),
            },
        }
    }
}

/// Once reading `m` values fails, reading more fails the same way.
pub proof fn lemma_read_items_err<T: Ser>(s: Seq<u8>, m: nat, n: nat)
    requires
        m <= n,
        spec_read_items::<T>(s, m) is Err,
    ensures
        spec_read_items::<T>(s, n) == spec_read_items::<T>(s, m),
    decreases n,
{
    if m < n {
        lemma_read_items_err::<T>(s, m, (n - 1) as nat);
    }
}

/// Reading back values written one after the other gives the values.
pub proof fn lemma_write_read_items<T: Ser>(vs: Seq<T::V>, rest: Seq<u8>)
    requires
        all_wf::<T>(vs),
    ensures
        spec_read_items::<T>(spec_write_items::<T>(vs) + rest, vs.len()) == Ok::<(Seq<T::V>, nat), ReadError>(
            (vs, spec_write_items::<T>(vs).len()),
        ),
    decreases vs.len(),
{
    if vs.len() > 0 {
        let front = spec_write_items::<T>(vs.drop_last());
        let last = T::spec_write(vs.last());
        assert(all_wf::<T>(vs.drop_last())) by {
            assert forall|i: int| 0 <= i < vs.drop_last().len() implies #[trigger] T::spec_wf(vs.drop_last()[i]) by {
                assert(T::spec_wf(vs[i]));
            }
        }
        assert(T::spec_wf(vs[vs.len() - 1]));
        assert(spec_write_items::<T>(vs) + rest =~= front + (last + rest));
        lemma_write_read_items::<T>(vs.drop_last(), last + rest);
        lemma_skip_front(front, last + rest);
        T::lemma_write_read(vs.last(), rest);
        assert(vs.drop_last().push(vs.last()) =~= vs);
    }
}

/// Appends the binary form of each value of `items`, in order.
pub fn write_items<T: Ser>(items: &Vec<T>, out: &mut Vec<u8>)
    ensures
        final(out)@ == old(out)@ + spec_write_items::<T>(views(items@)),
{
    let ghost start = out@;
    let mut i: usize = 0;
    while i < items.len()
        invariant
            i <= items@.len(),
            out@ == start + spec_write_items::<T>(views(items@.take(i as int))),
        decreases items@.len() - i,
    {
        let ghost before = out@;
        items[i].write(out);
        proof {
            let vs = views(items@.take(i + 1));
            assert(vs.drop_last() =~= views(items@.take(i as int)));
            assert(vs.last() == items@[i as int]@);
            assert(out@ =~= start + spec_write_items::<T>(vs));
        }
        i = i + 1;
    }
    assert(items@.take(items@.len() as int) =~= items@);
}

/// Reads `n` values one after the other from `buf` at `pos`.
pub fn read_items<T: Ser>(buf: &[u8], pos: usize, n: u64) -> (res: Result<(Vec<T>, usize), ReadError>)
    requires
        pos <= buf@.len(),
    ensures
        res matches Ok((_, p)) ==> pos <= p <= buf@.len(),
        match spec_read_items::<T>(from_pos(buf@, pos as int), n as nat) {
            Ok((vs, m)) => res matches Ok((x, p)) && views(x@) == vs && p == pos + m,
            Err(e) => res matches Err(f) && f == e,
        },
{
    let ghost s = from_pos(buf@, pos as int);
    let mut items: Vec<T> = Vec::new();
    let mut p = pos;
    let mut i: u64 = 0;
    assert(views(items@) =~= Seq::<T::V>::empty());
    while i < n
        invariant
            i <= n,
            pos <= p <= buf@.len(),
            s == from_pos(buf@, pos as int),
            spec_read_items::<T>(s, i as nat) == Ok::<(Seq<T::V>, nat), ReadError>((views(items@), (p - pos) as nat)),
        decreases n - i,
    {
        proof {
            lemma_from_pos_skip(buf@, pos as int, p as int);
        }
        match T::read(buf, p) {
            Ok((x, q)) => {
                let ghost old_items = items@;
                items.push(x);
                assert(views(items@) =~= views(old_items).push(x@));
                p = q;
                i = i + 1;
            },
            Err(e) => {
                proof {
                    lemma_read_items_err::<T>(s, (i + 1) as nat, n as nat);
                }
                return Err(e);
            },
        }
    }
    Ok((items, p))
}

/// The bytes written for a list: its length as a `u64`, then its values.
pub open spec fn spec_write_list<T: Ser>(vs: Seq<T::V>) -> Seq<u8> {
    <u64 as Ser>::spec_write(vs.len() as u64) + spec_write_items::<T>(vs)
}

/// What is read from `s` as a list: a `u64` length, then that many values.
pub open spec fn spec_read_list<T: Ser>(s: Seq<u8>) -> Result<(Seq<T::V>, nat), ReadError> {
    match <u64 as Ser>::spec_read(s) {
        Err(e) => Err(e),
        Ok((n, k)) => match spec_read_items::<T>(s.skip(k as int), n as nat) {
            Err(e) => Err(e),
            Ok((vs, m)) => Ok((vs, k + m)),
        },
    }
}

/// A list of values whose length fits a `u64` reads back as written.
pub proof fn lemma_write_read_list<T: Ser>(vs: Seq<T::V>, rest: Seq<u8>)
    requires
        all_wf::<T>(vs),
        vs.len() <= u64::MAX,
    ensures
        spec_read_list::<T>(spec_write_list::<T>(vs) + rest) == Ok::<(Seq<T::V>, nat), ReadError>(
            (vs, spec_write_list::<T>(vs).len()),
        ),
{
    let a = <u64 as Ser>::spec_write(vs.len() as u64);
    let b = spec_write_items::<T>(vs);
    assert(spec_write_list::<T>(vs) + rest =~= a + (b + rest));
    <u64 as Ser>::lemma_write_read(vs.len() as u64, b + rest);
    lemma_skip_front(a, b + rest);
    lemma_write_read_items::<T>(vs, rest);
}

/// Appends the length of `items` as a `u64`, then each of its values.
pub fn write_list<T: Ser>(items: &Vec<T>, out: &mut Vec<u8>)
    ensures
        final(out)@ == old(out)@ + spec_write_list::<T>(views(items@)),
{
    let ghost start = out@;
    let len = items.len() as u64;
    len.write(out);
    write_items(items, out);
    assert(out@ =~= start + spec_write_list::<T>(views(items@)));
}

/// Reads a `u64` length from `buf` at `pos`, then that many values.
pub fn read_list<T: Ser>(buf: &[u8], pos: usize) -> (res: Result<(Vec<T>, usize), ReadError>)
    requires
        pos <= buf@.len(),
    ensures
        res matches Ok((_, p)) ==> pos <= p <= buf@.len(),
        match spec_read_list::<T>(from_pos(buf@, pos as int)) {
            Ok((vs, m)) => res matches Ok((x, p)) && views(x@) == vs && p == pos + m,
            Err(e) => res matches Err(f) && f == e,
        },
{
    let (n, p) = u64::read(buf, pos)?;
    proof {
        lemma_from_pos_skip(buf@, pos as int, p as int);
    }
    read_items(buf, p, n)
}

/// What is read from `s` as `n` raw bytes.
pub open spec fn spec_read_raw(s: Seq<u8>, n: nat) -> Result<(Seq<u8>, nat), ReadError> {
    if s.len() < n {
        Err(ReadError::UnexpectedEof)
    } else {
        Ok((s.take(n as int), n))
    }
}

/// Reads `n` raw bytes from `buf` at `pos`.
fn read_raw(buf: &[u8], pos: usize, n: u64) -> (res: Result<(Vec<u8>, usize), ReadError>)
    requires
        pos <= buf@.len(),
    ensures
        res matches Ok((_, p)) ==> pos <= p <= buf@.len(),
        match spec_read_raw(from_pos(buf@, pos as int), n as nat) {
            Ok((b, m)) => res matches Ok((x, p)) && x@ == b && p == pos + m,
            Err(e) => res matches Err(f) && f == e,
        },
{
    if ((buf.len() - pos) as u64) < n {
        Err(ReadError::UnexpectedEof)
    } else {
        let end = pos + n as usize;
        let mut v: Vec<u8> = Vec::new();
        v.extend_from_slice(&buf[pos..end]);
        assert(v@ =~= from_pos(buf@, pos as int).take(n as int));
        Ok((v, end))
    }
}

/// Appends the bytes of `bytes`.
fn write_raw(bytes: &[u8], out: &mut Vec<u8>)
    ensures
        final(out)@ == old(out)@ + bytes@,
{
    out.extend_from_slice(bytes);
    assert(out@ =~= old(out)@ + bytes@);
}

/// The bytes written for a byte string with a `u64` length.
pub open spec fn spec_write_bytes64(b: Seq<u8>) -> Seq<u8> {
    <u64 as Ser>::spec_write(b.len() as u64) + b
}

/// What is read from `s` as a byte string with a `u64` length.
pub open spec fn spec_read_bytes64(s: Seq<u8>) -> Result<(Seq<u8>, nat), ReadError> {
    match <u64 as Ser>::spec_read(s) {
        Err(e) => Err(e),
        Ok((n, k)) => match spec_read_raw(s.skip(k as int), n as nat) {
            Err(e) => Err(e),
            Ok((b, m)) => Ok((b, k + m)),
        },
    }
}

/// A byte string whose length fits a `u64` reads back as written.
pub proof fn lemma_write_read_bytes64(b: Seq<u8>, rest: Seq<u8>)
    requires
        b.len() <= u64::MAX,
    ensures
        spec_read_bytes64(spec_write_bytes64(b) + rest) == Ok::<(Seq<u8>, nat), ReadError>((b, spec_write_bytes64(b).len())),
{
    let a = <u64 as Ser>::spec_write(b.len() as u64);
    assert(spec_write_bytes64(b) + rest =~= a + (b + rest));
    <u64 as Ser>::lemma_write_read(b.len() as u64, b + rest);
    lemma_skip_front(a, b + rest);
    assert((b + rest).take(b.len() as int) =~= b);
}

/// Appends the length of `bytes` as a `u64`, then the bytes.
pub fn write_bytes64(bytes: &[u8], out: &mut Vec<u8>)
    ensures
        final(out)@ == old(out)@ + spec_write_bytes64(bytes@),
{
    let ghost start = out@;
    let len = bytes.len() as u64;
    len.write(out);
    write_raw(bytes, out);
    assert(out@ =~= start + spec_write_bytes64(bytes@));
}

/// Reads a `u64` length from `buf` at `pos`, then that many bytes.
pub fn read_bytes64(buf: &[u8], pos: usize) -> (res: Result<(Vec<u8>, usize), ReadError>)
    requires
        pos <= buf@.len(),
    ensures
        res matches Ok((_, p)) ==> pos <= p <= buf@.len(),
        match spec_read_bytes64(from_pos(buf@, pos as int)) {
            Ok((b, m)) => res matches Ok((x, p)) && x@ == b && p == pos + m,
            Err(e) => res matches Err(f) && f == e,
        },
{
    let (n, p) = u64::read(buf, pos)?;
    proof {
        lemma_from_pos_skip(buf@, pos as int, p as int);
    }
    read_raw(buf, p, n)
}

/// The length written before a byte string with a `u32` length: the length,
/// or `0` when it does not fit.
pub open spec fn len32(n: nat) -> u32 {
    if n <= u32::MAX {
        n as u32
    } else {
        0
    }
}

/// The bytes written for a byte string with a `u32` length.
pub open spec fn spec_write_bytes32(b: Seq<u8>) -> Seq<u8> {
    <u32 as Ser>::spec_write(len32(b.len())) + b
}

/// What is read from `s` as a byte string with a `u32` length.
pub open spec fn spec_read_bytes32(s: Seq<u8>) -> Result<(Seq<u8>, nat), ReadError> {
    match <u32 as Ser>::spec_read(s) {
        Err(e) => Err(e),
        Ok((n, k)) => match spec_read_raw(s.skip(k as int), n as nat) {
            Err(e) => Err(e),
            Ok((b, m)) => Ok((b, k + m)),
        },
    }
}

/// A byte string whose length fits a `u32` reads back as written.
pub proof fn lemma_write_read_bytes32(b: Seq<u8>, rest: Seq<u8>)
    requires
        b.len() <= u32::MAX,
    ensures
        spec_read_bytes32(spec_write_bytes32(b) + rest) == Ok::<(Seq<u8>, nat), ReadError>((b, spec_write_bytes32(b).len())),
{
    let a = <u32 as Ser>::spec_write(len32(b.len()));
    assert(spec_write_bytes32(b) + rest =~= a + (b + rest));
    <u32 as Ser>::lemma_write_read(len32(b.len()), b + rest);
    lemma_skip_front(a, b + rest);
    assert((b + rest).take(b.len() as int) =~= b);
}

/// Appends the length of `bytes` as a `u32` (`0` when it does not fit), then the bytes.
pub fn write_bytes32(bytes: &[u8], out: &mut Vec<u8>)
    ensures
        final(out)@ == old(out)@ + spec_write_bytes32(bytes@),
{
    let ghost start = out@;
    let len: u32 = if bytes.len() as u64 <= u32::MAX as u64 {
        bytes.len() as u32
    } else {
        0
    };
    len.write(out);
    write_raw(bytes, out);
    assert(out@ =~= start + spec_write_bytes32(bytes@));
}

/// Reads a `u32` length from `buf` at `pos`, then that many bytes.
pub fn read_bytes32(buf: &[u8], pos: usize) -> (res: Result<(Vec<u8>, usize), ReadError>)
    requires
        pos <= buf@.len(),
    ensures
        res matches Ok((_, p)) ==> pos <= p <= buf@.len(),
        match spec_read_bytes32(from_pos(buf@, pos as int)) {
            Ok((b, m)) => res matches Ok((x, p)) && x@ == b && p == pos + m,
            Err(e) => res matches Err(f) && f == e,
        },
{
    let (n, p) = u32::read(buf, pos)?;
    proof {
        lemma_from_pos_skip(buf@, pos as int, p as int);
    }
    read_raw(buf, p, n as u64)
}

/// Converts bytes to a string when they are UTF-8.
///
/// Calls `std::str::from_utf8`, which succeeds exactly on UTF-8 bytes, and
/// copies the string slice it gives into a `String`; the contract states
/// that the characters are those the bytes decode to.
#[verifier::external_body]
pub(crate) fn utf8_to_string(bytes: &[u8]) -> (res: Option<String>)
    ensures
        res is Some <==> valid_utf8(bytes@),
        res matches Some(s) ==> s@ == decode_utf8(bytes@),
{
    match std::str::from_utf8(bytes) {
        Ok(s) => Some(s.to_string()),
        Err(_) => None,
    }
}

/// The characters that `b` decodes to, when it is UTF-8.
pub open spec fn spec_utf8(b: Seq<u8>) -> Result<Seq<char>, ReadError> {
    if valid_utf8(b) {
        Ok(decode_utf8(b))
    } else {
        Err(ReadError::InvalidUtf8)
    }
}

/// Turns bytes read from a buffer into a string.
fn bytes_to_string(bytes: Vec<u8>) -> (res: Result<String, ReadError>)
    ensures
        match spec_utf8(bytes@) {
            Ok(c) => res matches Ok(s) && s@ == c,
            Err(e) => res matches Err(f) && f == e,
        },
{
    match utf8_to_string(bytes.as_slice()) {
        Some(s) => Ok(s),
        None => Err(ReadError::InvalidUtf8),
    }
}

/// The bytes written for a string with a `u64` length.
pub open spec fn spec_write_str64(c: Seq<char>) -> Seq<u8> {
    spec_write_bytes64(encode_utf8(c))
}

/// What is read from `s` as a string with a `u64` length.
pub open spec fn spec_read_str64(s: Seq<u8>) -> Result<(Seq<char>, nat), ReadError> {
    match spec_read_bytes64(s) {
        Err(e) => Err(e),
        Ok((b, m)) => match spec_utf8(b) {
            Err(e) => Err(e),
            Ok(c) => Ok((c, m)),
        },
    }
}

/// The strings whose UTF-8 form has a length that fits a `u64`.
pub open spec fn wf_str64(c: Seq<char>) -> bool {
    encode_utf8(c).len() <= u64::MAX
}

/// A string written with a `u64` length reads back as written.
pub proof fn lemma_write_read_str64(c: Seq<char>, rest: Seq<u8>)
    requires
        wf_str64(c),
    ensures
        spec_read_str64(spec_write_str64(c) + rest) == Ok::<(Seq<char>, nat), ReadError>((c, spec_write_str64(c).len())),
{
    broadcast use encode_utf8_valid_utf8, encode_utf8_decode_utf8;
    lemma_write_read_bytes64(encode_utf8(c), rest);
}

/// Appends the UTF-8 length of `s` as a `u64`, then its UTF-8 bytes.
pub fn write_str64(s: &String, out: &mut Vec<u8>)
    ensures
        final(out)@ == old(out)@ + spec_write_str64(s@),
{
    write_bytes64(s.as_str().as_bytes(), out);
}

/// Reads a string with a `u64` length from `buf` at `pos`.
pub fn read_str64(buf: &[u8], pos: usize) -> (res: Result<(String, usize), ReadError>)
    requires
        pos <= buf@.len(),
    ensures
        res matches Ok((_, p)) ==> pos <= p <= buf@.len(),
        match spec_read_str64(from_pos(buf@, pos as int)) {
            Ok((c, m)) => res matches Ok((x, p)) && x@ == c && p == pos + m,
            Err(e) => res matches Err(f) && f == e,
        },
{
    let (b, p) = read_bytes64(buf, pos)?;
    let s = bytes_to_string(b)?;
    Ok((s, p))
}

/// The bytes written for a string with a `u32` length.
pub open spec fn spec_write_str32(c: Seq<char>) -> Seq<u8> {
    spec_write_bytes32(encode_utf8(c))
}

/// What is read from `s` as a string with a `u32` length.
pub open spec fn spec_read_str32(s: Seq<u8>) -> Result<(Seq<char>, nat), ReadError> {
    match spec_read_bytes32(s) {
        Err(e) => Err(e),
        Ok((b, m)) => match spec_utf8(b) {
            Err(e) => Err(e),
            Ok(c) => Ok((c, m)),
        },
    }
}

/// The strings whose UTF-8 form has a length that fits a `u32`.
pub open spec fn wf_str32(c: Seq<char>) -> bool {
    encode_utf8(c).len() <= u32::MAX
}

/// A string whose UTF-8 length fits a `u32` reads back as written.
pub proof fn lemma_write_read_str32(c: Seq<char>, rest: Seq<u8>)
    requires
        wf_str32(c),
    ensures
        spec_read_str32(spec_write_str32(c) + rest) == Ok::<(Seq<char>, nat), ReadError>((c, spec_write_str32(c).len())),
{
    broadcast use encode_utf8_valid_utf8, encode_utf8_decode_utf8;
    lemma_write_read_bytes32(encode_utf8(c), rest);
}

/// Appends the UTF-8 length of `s` as a `u32` (`0` when it does not fit), then its UTF-8 bytes.
pub fn write_str32(s: &String, out: &mut Vec<u8>)
    ensures
        final(out)@ == old(out)@ + spec_write_str32(s@),
{
    write_bytes32(s.as_str().as_bytes(), out);
}

/// Reads a string with a `u32` length from `buf` at `pos`.
pub fn read_str32(buf: &[u8], pos: usize) -> (res: Result<(String, usize), ReadError>)
    requires
        pos <= buf@.len(),
    ensures
        res matches Ok((_, p)) ==> pos <= p <= buf@.len(),
        match spec_read_str32(from_pos(buf@, pos as int)) {
            Ok((c, m)) => res matches Ok((x, p)) && x@ == c && p == pos + m,
            Err(e) => res matches Err(f) && f == e,
        },
{
    let (b, p) = read_bytes32(buf, pos)?;
    let s = bytes_to_string(b)?;
    Ok((s, p))
}

impl<A: Ser, B: Ser> Ser for (A, B) {
    open spec fn spec_write(v: (A::V, B::V)) -> Seq<u8> {
        A::spec_write(v.0) + B::spec_write(v.1)
    }

    open spec fn spec_read(s: Seq<u8>) -> Result<((A::V, B::V), nat), ReadError> {
        match A::spec_read(s) {
            Err(e) => Err(e),
            Ok((a, n1)) => match B::spec_read(s.skip(n1 as int)) {
                Err(e) => Err(e),
                Ok((b, n2)) => Ok(((a, b), n1 + n2)),
            },
        }
    }

    open spec fn spec_wf(v: (A::V, B::V)) -> bool {
        A::spec_wf(v.0) && B::spec_wf(v.1)
    }

    proof fn lemma_write_read(v: (A::V, B::V), rest: Seq<u8>) {
        let a = A::spec_write(v.0);
        let b = B::spec_write(v.1);
        assert(Self::spec_write(v) + rest =~= a + (b + rest));
        A::lemma_write_read(v.0, b + rest);
        lemma_skip_front(a, b + rest);
        B::lemma_write_read(v.1, rest);
    }

    fn write(&self, out: &mut Vec<u8>) {
        let ghost start = out@;
        self.0.write(out);
        self.1.write(out);
        assert(out@ =~= start + Self::spec_write(self@));
    }

    fn read(buf: &[u8], pos: usize) -> (res: Result<((A, B), usize), ReadError>) {
        let (a, p1) = A::read(buf, pos)?;
        proof {
            lemma_from_pos_skip(buf@, pos as int, p1 as int);
        }
        let (b, p2) = B::read(buf, p1)?;
        Ok(((a, b), p2))
    }
}

/// Appends the binary form of `thing` to `buffer`.
pub fn serialize_default<T: Ser>(buffer: &mut Vec<u8>, thing: &T)
    ensures
        final(buffer)@ == old(buffer)@ + T::spec_write(thing@),
{
    thing.write(buffer);
}

/// Reads a value from the front of `buf`; the bytes after it are left unread.
pub fn deserialize_default<T: Ser>(buf: &[u8]) -> (res: Result<T, ReadError>)
    ensures
        match T::spec_read(buf@) {
            Ok((v, _)) => res matches Ok(x) && x@ == v,
            Err(e) => res matches Err(f) && f == e,
        },
{
    assert(from_pos(buf@, 0) =~= buf@);
    let (x, _) = T::read(buf, 0)?;
    Ok(x)
}

/// Deserializing the bytes that serializing a value gave yields the value,
/// for every value that reads back as written.
pub proof fn lemma_serialize_deserialize<T: Ser>(v: T::V)
    requires
        T::spec_wf(v),
    ensures
        T::spec_read(T::spec_write(v)) == Ok::<(T::V, nat), ReadError>((v, T::spec_write(v).len())),
{
    T::lemma_write_read(v, Seq::empty());
    assert(T::spec_write(v) + Seq::<u8>::empty() =~= T::spec_write(v));
}

} // verus!
