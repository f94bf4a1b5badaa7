//! The values shared by the protocol and the store: strings, identifiers,
//! keys, invites, images and profiles.

use crate::encoding::{b58_decode, b58_encode, b64_decode, b64_encode, base58_bytes, base58_text, base64_bytes, base64_text, percent_encode, url_decode, url_decoded, url_encode};
use crate::error::{Error, ErrorKind};
use crate::ser::{ReadError, Ser, be_bytes, from_pos, lemma_be_bytes_len, lemma_from_pos_skip, lemma_skip_front, lemma_write_read_bytes64, lemma_write_read_str64, read_bytes64, read_str64, spec_read_bytes64, spec_read_str64, spec_write_bytes64, spec_write_str64, wf_str64, write_bytes64, write_str64};
use vstd::prelude::*;
use vstd::utf8::*;

verus! {

/// A string written with its UTF-8 length as a `u64`.
#[derive(Debug)]
pub struct SerString {
    pub data: String,
}

impl SerString {
    /// The characters of this string.
    pub fn to_string(&self) -> (s: String)
        ensures
            s@ == self.data@,
    {
        self.data.clone()
    }

    /// A copy of this string.
    pub fn duplicate(&self) -> (s: SerString)
        ensures
            s@ == self@,
    {
        SerString { data: self.data.clone() }
    }
}

impl From<String> for SerString {
    fn from(data: String) -> (s: SerString) {
        SerString { data }
    }
}

impl vstd::std_specs::convert::FromSpecImpl<String> for SerString {
    open spec fn obeys_from_spec() -> bool {
        true
    }

    open spec fn from_spec(data: String) -> SerString {
        SerString { data }
    }
}

/// A 128-bit number on the wire.
#[derive(Debug, Clone, Copy)]
pub struct U128(pub u128);

/// An ed25519 signature, 64 bytes.
#[derive(Debug, Clone, Copy)]
pub struct Signature(pub [u8; 64]);

/// An optional value on the wire: a byte `0` for none, `1` and the value for some.
#[derive(Debug)]
pub struct SerOption<T>(pub Option<T>);

impl<T> From<Option<T>> for SerOption<T> {
    fn from(opt: Option<T>) -> (s: SerOption<T>) {
        SerOption(opt)
    }
}

impl<T> vstd::std_specs::convert::FromSpecImpl<Option<T>> for SerOption<T> {
    open spec fn obeys_from_spec() -> bool {
        true
    }

    open spec fn from_spec(opt: Option<T>) -> SerOption<T> {
        SerOption(opt)
    }
}

impl<T: View> View for SerOption<T> {
    type V = Option<T::V>;

    open spec fn view(&self) -> Option<T::V> {
        match self.0 {
            Some(x) => Some(x@),
            None => None,
        }
    }
}

impl<T: Ser> Ser for SerOption<T> {
    open spec fn spec_write(v: Option<T::V>) -> Seq<u8> {
        match v {
            None => seq![0u8],
            Some(x) => seq![1u8] + T::spec_write(x),
        }
    }

    open spec fn spec_read(s: Seq<u8>) -> Result<(Option<T::V>, nat), ReadError> {
        match <u8 as Ser>::spec_read(s) {
            Err(e) => Err(e),
            Ok((t, n1)) => if t == 0 {
                Ok((None, n1))
            } else {
                match T::spec_read(s.skip(n1 as int)) {
                    Err(e) => Err(e),
                    Ok((x, n2)) => Ok((Some(x), n1 + n2)),
                }
            },
        }
    }

    open spec fn spec_wf(v: Option<T::V>) -> bool {
        match v {
            None => true,
            Some(x) => T::spec_wf(x),
        }
    }

    proof fn lemma_write_read(v: Option<T::V>, rest: Seq<u8>) {
        match v {
            None => {
                assert(Self::spec_write(v) + rest =~= seq![0u8] + rest);
            },
            Some(x) => {
                let e = T::spec_write(x);
                assert(Self::spec_write(v) + rest =~= seq![1u8] + (e + rest));
                lemma_skip_front(seq![1u8], e + rest);
                T::lemma_write_read(x, rest);
            },
        }
    }

    fn write(&self, out: &mut Vec<u8>) {
        let ghost start = out@;
        match &self.0 {
            Some(x) => {
                out.push(1);
                x.write(out);
            },
            None => {
                out.push(0);
            },
        }
        assert(out@ =~= start + Self::spec_write(self@));
    }

    fn read(buf: &[u8], pos: usize) -> (res: Result<(SerOption<T>, usize), ReadError>) {
        let (t, p1) = <u8 as Ser>::read(buf, pos)?;
        if t == 0 {
            Ok((SerOption(None), p1))
        } else {
            proof {
                lemma_from_pos_skip(buf@, pos as int, p1 as int);
            }
            let (x, p2) = T::read(buf, p1)?;
            Ok((SerOption(Some(x)), p2))
        }
    }
}

/// Why a text did not give an identifier.
#[derive(Clone, Copy, Debug, PartialEq, Eq, Structural)]
pub enum IdTextFailure {
    /// The percent-decoded text is not UTF-8.
    UrlDecoding,
    /// The text is not base64.
    Base64,
    /// The bytes have another length than the identifier.
    Length,
}

/// The `n` bytes of an identifier given as percent-encoded base64 text.
pub open spec fn spec_id_from_urlencoding(text: Seq<char>, n: nat) -> Result<Seq<u8>, IdTextFailure> {
    match url_decoded(text) {
        None => Err(IdTextFailure::UrlDecoding),
        Some(t) => match base64_bytes(t) {
            None => Err(IdTextFailure::Base64),
            Some(b) => if b.len() == n {
                Ok(b)
            } else {
                Err(IdTextFailure::Length)
            },
        },
    }
}

/// The `n` bytes of an identifier given as base58 text.
pub open spec fn spec_id_from_base58(text: Seq<char>, n: nat) -> Result<Seq<u8>, IdTextFailure> {
    match base58_bytes(text) {
        None => Err(IdTextFailure::Base64),
        Some(b) => if b.len() == n {
            Ok(b)
        } else {
            Err(IdTextFailure::Length)
        },
    }
}

/// The kind of error reported for each failure to read an identifier.
pub open spec fn id_failure_kind(f: IdTextFailure, k: ErrorKind, base58: bool) -> bool {
    match f {
        IdTextFailure::UrlDecoding => k is FromUtf8Error,
        IdTextFailure::Base64 => if base58 {
            k is Base58DecodeError
        } else {
            k is DecodeError
        },
        IdTextFailure::Length => k is TryFromSliceError,
    }
}

/// The percent-encoded base64 text of some bytes.
fn bytes_to_urlencoding(bytes: &[u8]) -> (s: String)
    ensures
        s@ == percent_encode(encode_utf8(base64_text(bytes@))),
        url_decoded(s@) == Some(base64_text(bytes@)),
        base64_bytes(base64_text(bytes@)) == Some(bytes@),
{
    let t = b64_encode(bytes);
    url_encode(t.as_str())
}

/// The bytes of percent-encoded base64 text.
fn bytes_from_urlencoding(data: &String) -> (res: Result<Vec<u8>, Error>)
    ensures
        match spec_id_from_urlencoding(data@, 0) {
            Err(IdTextFailure::UrlDecoding) => res matches Err(e) && e.inner is FromUtf8Error,
            Err(IdTextFailure::Base64) => res matches Err(e) && e.inner is DecodeError,
            _ => res matches Ok(b) && url_decoded(data@) matches Some(t) && base64_bytes(t) == Some(b@),
        },
{
    let text = match url_decode(data.as_str()) {
        Ok(t) => t,
        Err(m) => {
            return Err(Error::new(ErrorKind::FromUtf8Error(m)));
        },
    };
    match b64_decode(text.as_str()) {
        Ok(b) => Ok(b),
        Err(m) => Err(Error::new(ErrorKind::DecodeError(m))),
    }
}

/// The error for bytes of the wrong length for an identifier.
fn length_error() -> (e: Error)
    ensures
        e.inner is TryFromSliceError,
{
    Error::new(ErrorKind::TryFromSliceError("could not convert slice to array".to_owned()))
}

/// A server identifier: 8 bytes.
#[derive(Debug, Clone, Copy)]
pub struct ServerId {
    data: [u8; 8],
}

impl ServerId {
    pub fn from_bytes(data: [u8; 8]) -> (id: ServerId)
        ensures
            id@ == data@,
    {
        ServerId { data }
    }

    pub fn to_bytes(&self) -> (b: [u8; 8])
        ensures
            b@ == self@,
    {
        self.data
    }

    /// Reads a server identifier from percent-encoded base64 text.
    pub fn from_urlencoding(data: String) -> (res: Result<ServerId, Error>)
        ensures
            match spec_id_from_urlencoding(data@, 8) {
                Ok(b) => res matches Ok(id) && id@ == b,
                Err(f) => res matches Err(e) && id_failure_kind(f, e.inner, false),
            },
    {
        let bytes = bytes_from_urlencoding(&data)?;
        if bytes.len() != 8 {
            return Err(length_error());
        }
        match <[u8; 8] as Ser>::read(bytes.as_slice(), 0) {
            Ok((data, _)) => {
                assert(bytes@.take(8) =~= bytes@);
                Ok(ServerId { data })
            },
            Err(_) => Err(length_error()),
        }
    }

    /// The percent-encoded base64 text of this identifier.
    pub fn to_urlencoding(&self) -> (res: Result<String, Error>)
        ensures
            res matches Ok(s) && s@ == percent_encode(encode_utf8(base64_text(self@)))
                && spec_id_from_urlencoding(s@, 8) == Ok::<Seq<u8>, IdTextFailure>(self@),
    {
        let s = bytes_to_urlencoding(&self.data);
        Ok(s)
    }

    /// The base58 text of this identifier.
    pub fn to_base58(&self) -> (res: Result<String, Error>)
        ensures
            res matches Ok(s) && s@ == base58_text(self@) && spec_id_from_base58(s@, 8)
                == Ok::<Seq<u8>, IdTextFailure>(self@),
    {
        Ok(b58_encode(&self.data))
    }

    /// Sets this identifier from base58 text; leaves it as it was on error.
    pub fn from_base58(&mut self, s: String) -> (res: Result<(), Error>)
        ensures
            match spec_id_from_base58(s@, 8) {
                Ok(b) => res is Ok && final(self)@ == b,
                Err(f) => res matches Err(e) && id_failure_kind(f, e.inner, true) && *final(self)
                    == *old(self),
            },
    {
        let bytes = match b58_decode(s.as_str()) {
            Ok(b) => b,
            Err(m) => {
                return Err(Error::new(ErrorKind::Base58DecodeError(m)));
            },
        };
        if bytes.len() != 8 {
            return Err(length_error());
        }
        match <[u8; 8] as Ser>::read(bytes.as_slice(), 0) {
            Ok((data, _)) => {
                assert(bytes@.take(8) =~= bytes@);
                self.data = data;
                Ok(())
            },
            Err(_) => Err(length_error()),
        }
    }

    /// The identifier whose bytes are the big-endian bytes of `v`.
    pub fn from_u64(v: u64) -> (id: ServerId)
        ensures
            id@ == be_bytes(v as nat, 8),
    {
        let mut out: Vec<u8> = Vec::new();
        v.write(&mut out);
        proof {
            lemma_be_bytes_len(v as nat, 8);
        }
        match <[u8; 8] as Ser>::read(out.as_slice(), 0) {
            Ok((data, _)) => {
                assert(out@.take(8) =~= out@);
                ServerId { data }
            },
            Err(_) => ServerId { data: [0u8; 8] },
        }
    }
}

impl From<[u8; 8]> for ServerId {
    fn from(data: [u8; 8]) -> (id: ServerId) {
        ServerId { data }
    }
}

impl vstd::std_specs::convert::FromSpecImpl<[u8; 8]> for ServerId {
    closed spec fn obeys_from_spec() -> bool {
        true
    }

    closed spec fn from_spec(data: [u8; 8]) -> ServerId {
        ServerId { data }
    }
}

/// A public key: 32 bytes.
#[derive(Debug, Clone, Copy)]
pub struct Pubkey {
    data: [u8; 32],
}

impl Pubkey {
    pub fn from_bytes(data: [u8; 32]) -> (k: Pubkey)
        ensures
            k@ == data@,
    {
        Pubkey { data }
    }

    pub fn to_bytes(&self) -> (b: [u8; 32])
        ensures
            b@ == self@,
    {
        self.data
    }

    /// Reads a public key from percent-encoded base64 text.
    pub fn from_urlencoding(data: String) -> (res: Result<Pubkey, Error>)
        ensures
            match spec_id_from_urlencoding(data@, 32) {
                Ok(b) => res matches Ok(k) && k@ == b,
                Err(f) => res matches Err(e) && id_failure_kind(f, e.inner, false),
            },
    {
        let bytes = bytes_from_urlencoding(&data)?;
        if bytes.len() != 32 {
            return Err(length_error());
        }
        match <[u8; 32] as Ser>::read(bytes.as_slice(), 0) {
            Ok((data, _)) => {
                assert(bytes@.take(32) =~= bytes@);
                Ok(Pubkey { data })
            },
            Err(_) => Err(length_error()),
        }
    }

    /// The percent-encoded base64 text of this key.
    pub fn to_urlencoding(&self) -> (res: Result<String, Error>)
        ensures
            res matches Ok(s) && s@ == percent_encode(encode_utf8(base64_text(self@)))
                && spec_id_from_urlencoding(s@, 32) == Ok::<Seq<u8>, IdTextFailure>(self@),
    {
        let s = bytes_to_urlencoding(&self.data);
        Ok(s)
    }

    /// The base58 text of this key.
    pub fn to_base58(&self) -> (res: Result<String, Error>)
        ensures
            res matches Ok(s) && s@ == base58_text(self@) && spec_id_from_base58(s@, 32)
                == Ok::<Seq<u8>, IdTextFailure>(self@),
    {
        Ok(b58_encode(&self.data))
    }

    /// Sets this key from base58 text; leaves it as it was on error.
    pub fn from_base58(&mut self, s: String) -> (res: Result<(), Error>)
        ensures
            match spec_id_from_base58(s@, 32) {
                Ok(b) => res is Ok && final(self)@ == b,
                Err(f) => res matches Err(e) && id_failure_kind(f, e.inner, true) && *final(self)
                    == *old(self),
            },
    {
        let bytes = match b58_decode(s.as_str()) {
            Ok(b) => b,
            Err(m) => {
                return Err(Error::new(ErrorKind::Base58DecodeError(m)));
            },
        };
        if bytes.len() != 32 {
            return Err(length_error());
        }
        match <[u8; 32] as Ser>::read(bytes.as_slice(), 0) {
            Ok((data, _)) => {
                assert(bytes@.take(32) =~= bytes@);
                self.data = data;
                Ok(())
            },
            Err(_) => Err(length_error()),
        }
    }
}

/// An invitation to join a server.
#[derive(Debug, Clone)]
pub struct Invite {
    pub inviter: [u8; 32],
    pub server_id: [u8; 8],
    pub expiry: u128,
    pub cur: u64,
    pub max: u64,
    pub id: u128,
}

/// An image: its bytes.
#[derive(Debug, Clone)]
pub struct Image {
    pub data: Vec<u8>,
}

impl Default for Image {
    fn default() -> (i: Image)
        ensures
            i.data@ == Seq::<u8>::empty(),
    {
        Image { data: Vec::new() }
    }
}

impl From<Vec<u8>> for Image {
    fn from(data: Vec<u8>) -> (i: Image) {
        Image { data }
    }
}

impl vstd::std_specs::convert::FromSpecImpl<Vec<u8>> for Image {
    open spec fn obeys_from_spec() -> bool {
        true
    }

    open spec fn from_spec(data: Vec<u8>) -> Image {
        Image { data }
    }
}

/// A user's name and bio.
#[derive(Debug)]
pub struct ProfileData {
    pub user_name: SerString,
    pub user_bio: SerString,
}

impl Default for ProfileData {
    fn default() -> (p: ProfileData)
        ensures
            p.user_name@ == "User Default"@,
            p.user_bio@ == "Tell us about you.."@,
    {
        ProfileData {
            user_name: SerString { data: "User Default".to_owned() },
            user_bio: SerString { data: "Tell us about you..".to_owned() },
        }
    }
}

impl ProfileData {
    /// A copy of this profile.
    pub fn duplicate(&self) -> (p: ProfileData)
        ensures
            p@ == self@,
    {
        ProfileData { user_name: self.user_name.duplicate(), user_bio: self.user_bio.duplicate() }
    }
}

impl Ser for [u8; 8] {
    open spec fn spec_write(v: Seq<u8>) -> Seq<u8> {
        v
    }

    open spec fn spec_read(s: Seq<u8>) -> Result<(Seq<u8>, nat), ReadError> {
        if s.len() < 8 {
            Err(ReadError::UnexpectedEof)
        } else {
            Ok((s.take(8), 8))
        }
    }

    open spec fn spec_wf(v: Seq<u8>) -> bool {
        v.len() == 8
    }

    proof fn lemma_write_read(v: Seq<u8>, rest: Seq<u8>) {
        assert((v + rest).take(8) =~= v);
    }

    fn write(&self, out: &mut Vec<u8>) {
        let ghost start = out@;
        let mut i: usize = 0;
        while i < 8
            invariant
                i <= 8,
                out@ == start + self@.take(i as int),
            decreases 8 - i,
        {
            out.push(self[i]);
            assert(self@.take(i + 1) =~= self@.take(i as int).push(self@[i as int]));
            i = i + 1;
        }
        assert(self@.take(8) =~= self@);
    }

    fn read(buf: &[u8], pos: usize) -> (res: Result<([u8; 8], usize), ReadError>) {
        if buf.len() - pos < 8 {
            return Err(ReadError::UnexpectedEof);
        }
        let mut a = [0u8; 8];
        let mut i: usize = 0;
        while i < 8
            invariant
                i <= 8,
                pos + 8 <= buf@.len(),
                a@.len() == 8,
                a@.take(i as int) =~= buf@.subrange(pos as int, pos + i),
            decreases 8 - i,
        {
            a[i] = buf[pos + i];
            assert(a@.take(i + 1) =~= buf@.subrange(pos as int, pos + i + 1));
            i = i + 1;
        }
        assert(a@ =~= from_pos(buf@, pos as int).take(8));
        Ok((a, pos + 8))
    }
}

impl Ser for [u8; 32] {
    open spec fn spec_write(v: Seq<u8>) -> Seq<u8> {
        v
    }

    open spec fn spec_read(s: Seq<u8>) -> Result<(Seq<u8>, nat), ReadError> {
        if s.len() < 32 {
            Err(ReadError::UnexpectedEof)
        } else {
            Ok((s.take(32), 32))
        }
    }

    open spec fn spec_wf(v: Seq<u8>) -> bool {
        v.len() == 32
    }

    proof fn lemma_write_read(v: Seq<u8>, rest: Seq<u8>) {
        assert((v + rest).take(32) =~= v);
    }

    fn write(&self, out: &mut Vec<u8>) {
        let ghost start = out@;
        let mut i: usize = 0;
        while i < 32
            invariant
                i <= 32,
                out@ == start + self@.take(i as int),
            decreases 32 - i,
        {
            out.push(self[i]);
            assert(self@.take(i + 1) =~= self@.take(i as int).push(self@[i as int]));
            i = i + 1;
        }
        assert(self@.take(32) =~= self@);
    }

    fn read(buf: &[u8], pos: usize) -> (res: Result<([u8; 32], usize), ReadError>) {
        if buf.len() - pos < 32 {
            return Err(ReadError::UnexpectedEof);
        }
        let mut a = [0u8; 32];
        let mut i: usize = 0;
        while i < 32
            invariant
                i <= 32,
                pos + 32 <= buf@.len(),
                a@.len() == 32,
                a@.take(i as int) =~= buf@.subrange(pos as int, pos + i),
            decreases 32 - i,
        {
            a[i] = buf[pos + i];
            assert(a@.take(i + 1) =~= buf@.subrange(pos as int, pos + i + 1));
            i = i + 1;
        }
        assert(a@ =~= from_pos(buf@, pos as int).take(32));
        Ok((a, pos + 32))
    }
}

impl Ser for [u8; 64] {
    open spec fn spec_write(v: Seq<u8>) -> Seq<u8> {
        v
    }

    open spec fn spec_read(s: Seq<u8>) -> Result<(Seq<u8>, nat), ReadError> {
        if s.len() < 64 {
            Err(ReadError::UnexpectedEof)
        } else {
            Ok((s.take(64), 64))
        }
    }

    open spec fn spec_wf(v: Seq<u8>) -> bool {
        v.len() == 64
    }

    proof fn lemma_write_read(v: Seq<u8>, rest: Seq<u8>) {
        assert((v + rest).take(64) =~= v);
    }

    fn write(&self, out: &mut Vec<u8>) {
        let ghost start = out@;
        let mut i: usize = 0;
        while i < 64
            invariant
                i <= 64,
                out@ == start + self@.take(i as int),
            decreases 64 - i,
        {
            out.push(self[i]);
            assert(self@.take(i + 1) =~= self@.take(i as int).push(self@[i as int]));
            i = i + 1;
        }
        assert(self@.take(64) =~= self@);
    }

    fn read(buf: &[u8], pos: usize) -> (res: Result<([u8; 64], usize), ReadError>) {
        if buf.len() - pos < 64 {
            return Err(ReadError::UnexpectedEof);
        }
        let mut a = [0u8; 64];
        let mut i: usize = 0;
        while i < 64
            invariant
                i <= 64,
                pos + 64 <= buf@.len(),
                a@.len() == 64,
                a@.take(i as int) =~= buf@.subrange(pos as int, pos + i),
            decreases 64 - i,
        {
            a[i] = buf[pos + i];
            assert(a@.take(i + 1) =~= buf@.subrange(pos as int, pos + i + 1));
            i = i + 1;
        }
        assert(a@ =~= from_pos(buf@, pos as int).take(64));
        Ok((a, pos + 64))
    }
}

impl View for SerString {
    type V = Seq<char>;

    open spec fn view(&self) -> Seq<char> {
        self.data@
    }
}

impl Ser for SerString {
    open spec fn spec_write(v: Seq<char>) -> Seq<u8> {
        spec_write_str64(v)
    }

    open spec fn spec_read(s: Seq<u8>) -> Result<(Seq<char>, nat), ReadError> {
        match spec_read_str64(s) {
            Err(e) => Err(e),
            Ok((data, n1)) => {
                Ok((data, n1))
            },
        }
    }

    open spec fn spec_wf(v: Seq<char>) -> bool {
        wf_str64(v)
    }

    proof fn lemma_write_read(v: Seq<char>, rest: Seq<u8>) {
        let e1 = spec_write_str64(v);
        assert(Self::spec_write(v) + rest =~= e1 + rest);
        lemma_write_read_str64(v, rest);
    }

    fn write(&self, out: &mut Vec<u8>) {
        let ghost start = out@;
        write_str64(&self.data, out);
        assert(out@ =~= start + Self::spec_write(self@));
    }

    fn read(buf: &[u8], pos: usize) -> (res: Result<(SerString, usize), ReadError>) {
        let (data, p1) = read_str64(buf, pos)?;
        Ok((SerString { data }, p1))
    }
}

impl View for U128 {
    type V = u128;

    open spec fn view(&self) -> u128 {
        self.0
    }
}

impl Ser for U128 {
    open spec fn spec_write(v: u128) -> Seq<u8> {
        <u128 as Ser>::spec_write(v)
    }

    open spec fn spec_read(s: Seq<u8>) -> Result<(u128, nat), ReadError> {
        match <u128 as Ser>::spec_read(s) {
            Err(e) => Err(e),
            Ok((f0, n1)) => {
                Ok((f0, n1))
            },
        }
    }

    open spec fn spec_wf(v: u128) -> bool {
        true
    }

    proof fn lemma_write_read(v: u128, rest: Seq<u8>) {
        let e1 = <u128 as Ser>::spec_write(v);
        assert(Self::spec_write(v) + rest =~= e1 + rest);
        <u128 as Ser>::lemma_write_read(v, rest);
    }

    fn write(&self, out: &mut Vec<u8>) {
        let ghost start = out@;
        self.0.write(out);
        assert(out@ =~= start + Self::spec_write(self@));
    }

    fn read(buf: &[u8], pos: usize) -> (res: Result<(U128, usize), ReadError>) {
        let (f0, p1) = <u128 as Ser>::read(buf, pos)?;
        Ok((U128(f0), p1))
    }
}

impl View for Signature {
    type V = Seq<u8>;

    open spec fn view(&self) -> Seq<u8> {
        self.0@
    }
}

impl Ser for Signature {
    open spec fn spec_write(v: Seq<u8>) -> Seq<u8> {
        <[u8; 64] as Ser>::spec_write(v)
    }

    open spec fn spec_read(s: Seq<u8>) -> Result<(Seq<u8>, nat), ReadError> {
        match <[u8; 64] as Ser>::spec_read(s) {
            Err(e) => Err(e),
            Ok((f0, n1)) => {
                Ok((f0, n1))
            },
        }
    }

    open spec fn spec_wf(v: Seq<u8>) -> bool {
        v.len() == 64
    }

    proof fn lemma_write_read(v: Seq<u8>, rest: Seq<u8>) {
        let e1 = <[u8; 64] as Ser>::spec_write(v);
        assert(Self::spec_write(v) + rest =~= e1 + rest);
        <[u8; 64] as Ser>::lemma_write_read(v, rest);
    }

    fn write(&self, out: &mut Vec<u8>) {
        let ghost start = out@;
        self.0.write(out);
        assert(out@ =~= start + Self::spec_write(self@));
    }

    fn read(buf: &[u8], pos: usize) -> (res: Result<(Signature, usize), ReadError>) {
        let (f0, p1) = <[u8; 64] as Ser>::read(buf, pos)?;
        Ok((Signature(f0), p1))
    }
}

impl View for ServerId {
    type V = Seq<u8>;

    closed spec fn view(&self) -> Seq<u8> {
        self.data@
    }
}

impl Ser for ServerId {
    open spec fn spec_write(v: Seq<u8>) -> Seq<u8> {
        <[u8; 8] as Ser>::spec_write(v)
    }

    open spec fn spec_read(s: Seq<u8>) -> Result<(Seq<u8>, nat), ReadError> {
        match <[u8; 8] as Ser>::spec_read(s) {
            Err(e) => Err(e),
            Ok((data, n1)) => {
                Ok((data, n1))
            },
        }
    }

    open spec fn spec_wf(v: Seq<u8>) -> bool {
        v.len() == 8
    }

    proof fn lemma_write_read(v: Seq<u8>, rest: Seq<u8>) {
        let e1 = <[u8; 8] as Ser>::spec_write(v);
        assert(Self::spec_write(v) + rest =~= e1 + rest);
        <[u8; 8] as Ser>::lemma_write_read(v, rest);
    }

    fn write(&self, out: &mut Vec<u8>) {
        let ghost start = out@;
        self.data.write(out);
        assert(out@ =~= start + Self::spec_write(self@));
    }

    fn read(buf: &[u8], pos: usize) -> (res: Result<(ServerId, usize), ReadError>) {
        let (data, p1) = <[u8; 8] as Ser>::read(buf, pos)?;
        Ok((ServerId { data }, p1))
    }
}

impl View for Pubkey {
    type V = Seq<u8>;

    closed spec fn view(&self) -> Seq<u8> {
        self.data@
    }
}

impl Ser for Pubkey {
    open spec fn spec_write(v: Seq<u8>) -> Seq<u8> {
        <[u8; 32] as Ser>::spec_write(v)
    }

    open spec fn spec_read(s: Seq<u8>) -> Result<(Seq<u8>, nat), ReadError> {
        match <[u8; 32] as Ser>::spec_read(s) {
            Err(e) => Err(e),
            Ok((data, n1)) => {
                Ok((data, n1))
            },
        }
    }

    open spec fn spec_wf(v: Seq<u8>) -> bool {
        v.len() == 32
    }

    proof fn lemma_write_read(v: Seq<u8>, rest: Seq<u8>) {
        let e1 = <[u8; 32] as Ser>::spec_write(v);
        assert(Self::spec_write(v) + rest =~= e1 + rest);
        <[u8; 32] as Ser>::lemma_write_read(v, rest);
    }

    fn write(&self, out: &mut Vec<u8>) {
        let ghost start = out@;
        self.data.write(out);
        assert(out@ =~= start + Self::spec_write(self@));
    }

    fn read(buf: &[u8], pos: usize) -> (res: Result<(Pubkey, usize), ReadError>) {
        let (data, p1) = <[u8; 32] as Ser>::read(buf, pos)?;
        Ok((Pubkey { data }, p1))
    }
}

impl View for Invite {
    type V = (Seq<u8>, Seq<u8>, u128, u64, u64, u128);

    open spec fn view(&self) -> (Seq<u8>, Seq<u8>, u128, u64, u64, u128) {
        (self.inviter@, self.server_id@, self.expiry, self.cur, self.max, self.id)
    }
}

impl Ser for Invite {
    open spec fn spec_write(v: (Seq<u8>, Seq<u8>, u128, u64, u64, u128)) -> Seq<u8> {
        <[u8; 8] as Ser>::spec_write(v.1) + <[u8; 32] as Ser>::spec_write(v.0) + <u128 as Ser>::spec_write(v.2) + <u64 as Ser>::spec_write(v.3) + <u64 as Ser>::spec_write(v.4) + <u128 as Ser>::spec_write(v.5)
    }

    open spec fn spec_read(s: Seq<u8>) -> Result<((Seq<u8>, Seq<u8>, u128, u64, u64, u128), nat), ReadError> {
        match <[u8; 8] as Ser>::spec_read(s) {
            Err(e) => Err(e),
            Ok((server_id, n1)) => {
                let s1 = s.skip(n1 as int);
                match <[u8; 32] as Ser>::spec_read(s1) {
                    Err(e) => Err(e),
                    Ok((inviter, n2)) => {
                        let s2 = s1.skip(n2 as int);
                        match <u128 as Ser>::spec_read(s2) {
                            Err(e) => Err(e),
                            Ok((expiry, n3)) => {
                                let s3 = s2.skip(n3 as int);
                                match <u64 as Ser>::spec_read(s3) {
                                    Err(e) => Err(e),
                                    Ok((cur, n4)) => {
                                        let s4 = s3.skip(n4 as int);
                                        match <u64 as Ser>::spec_read(s4) {
                                            Err(e) => Err(e),
                                            Ok((max, n5)) => {
                                                let s5 = s4.skip(n5 as int);
                                                match <u128 as Ser>::spec_read(s5) {
                                                    Err(e) => Err(e),
                                                    Ok((id, n6)) => {
                                                        Ok(((inviter, server_id, expiry, cur, max, id), n1 + n2 + n3 + n4 + n5 + n6))
                                                    },
                                                }
                                            },
                                        }
                                    },
                                }
                            },
                        }
                    },
                }
            },
        }
    }

    open spec fn spec_wf(v: (Seq<u8>, Seq<u8>, u128, u64, u64, u128)) -> bool {
        v.1.len() == 8 && v.0.len() == 32
    }

    proof fn lemma_write_read(v: (Seq<u8>, Seq<u8>, u128, u64, u64, u128), rest: Seq<u8>) {
        let e1 = <[u8; 8] as Ser>::spec_write(v.1);
        let e2 = <[u8; 32] as Ser>::spec_write(v.0);
        let e3 = <u128 as Ser>::spec_write(v.2);
        let e4 = <u64 as Ser>::spec_write(v.3);
        let e5 = <u64 as Ser>::spec_write(v.4);
        let e6 = <u128 as Ser>::spec_write(v.5);
        assert(Self::spec_write(v) + rest =~= e1 + (e2 + (e3 + (e4 + (e5 + (e6 + rest))))));
        <[u8; 8] as Ser>::lemma_write_read(v.1, e2 + (e3 + (e4 + (e5 + (e6 + rest)))));
        lemma_skip_front(e1, e2 + (e3 + (e4 + (e5 + (e6 + rest)))));
        <[u8; 32] as Ser>::lemma_write_read(v.0, e3 + (e4 + (e5 + (e6 + rest))));
        lemma_skip_front(e2, e3 + (e4 + (e5 + (e6 + rest))));
        <u128 as Ser>::lemma_write_read(v.2, e4 + (e5 + (e6 + rest)));
        lemma_skip_front(e3, e4 + (e5 + (e6 + rest)));
        <u64 as Ser>::lemma_write_read(v.3, e5 + (e6 + rest));
        lemma_skip_front(e4, e5 + (e6 + rest));
        <u64 as Ser>::lemma_write_read(v.4, e6 + rest);
        lemma_skip_front(e5, e6 + rest);
        <u128 as Ser>::lemma_write_read(v.5, rest);
    }

    fn write(&self, out: &mut Vec<u8>) {
        let ghost start = out@;
        self.server_id.write(out);
        self.inviter.write(out);
        self.expiry.write(out);
        self.cur.write(out);
        self.max.write(out);
        self.id.write(out);
        assert(out@ =~= start + Self::spec_write(self@));
    }

    fn read(buf: &[u8], pos: usize) -> (res: Result<(Invite, usize), ReadError>) {
        let (server_id, p1) = <[u8; 8] as Ser>::read(buf, pos)?;
        proof {
            lemma_from_pos_skip(buf@, pos as int, p1 as int);
        }
        let (inviter, p2) = <[u8; 32] as Ser>::read(buf, p1)?;
        proof {
            lemma_from_pos_skip(buf@, p1 as int, p2 as int);
        }
        let (expiry, p3) = <u128 as Ser>::read(buf, p2)?;
        proof {
            lemma_from_pos_skip(buf@, p2 as int, p3 as int);
        }
        let (cur, p4) = <u64 as Ser>::read(buf, p3)?;
        proof {
            lemma_from_pos_skip(buf@, p3 as int, p4 as int);
        }
        let (max, p5) = <u64 as Ser>::read(buf, p4)?;
        proof {
            lemma_from_pos_skip(buf@, p4 as int, p5 as int);
        }
        let (id, p6) = <u128 as Ser>::read(buf, p5)?;
        Ok((Invite { inviter, server_id, expiry, cur, max, id }, p6))
    }
}

impl View for Image {
    type V = Seq<u8>;

    open spec fn view(&self) -> Seq<u8> {
        self.data@
    }
}

impl Ser for Image {
    open spec fn spec_write(v: Seq<u8>) -> Seq<u8> {
        spec_write_bytes64(v)
    }

    open spec fn spec_read(s: Seq<u8>) -> Result<(Seq<u8>, nat), ReadError> {
        match spec_read_bytes64(s) {
            Err(e) => Err(e),
            Ok((data, n1)) => {
                Ok((data, n1))
            },
        }
    }

    open spec fn spec_wf(v: Seq<u8>) -> bool {
        v.len() <= u64::MAX
    }

    proof fn lemma_write_read(v: Seq<u8>, rest: Seq<u8>) {
        let e1 = spec_write_bytes64(v);
        assert(Self::spec_write(v) + rest =~= e1 + rest);
        lemma_write_read_bytes64(v, rest);
    }

    fn write(&self, out: &mut Vec<u8>) {
        let ghost start = out@;
        write_bytes64(self.data.as_slice(), out);
        assert(out@ =~= start + Self::spec_write(self@));
    }

    fn read(buf: &[u8], pos: usize) -> (res: Result<(Image, usize), ReadError>) {
        let (data, p1) = read_bytes64(buf, pos)?;
        Ok((Image { data }, p1))
    }
}

impl View for ProfileData {
    type V = (<SerString as View>::V, <SerString as View>::V);

    open spec fn view(&self) -> (<SerString as View>::V, <SerString as View>::V) {
        (self.user_name@, self.user_bio@)
    }
}

impl Ser for ProfileData {
    open spec fn spec_write(v: (<SerString as View>::V, <SerString as View>::V)) -> Seq<u8> {
        <SerString as Ser>::spec_write(v.0) + <SerString as Ser>::spec_write(v.1)
    }

    open spec fn spec_read(s: Seq<u8>) -> Result<((<SerString as View>::V, <SerString as View>::V), nat), ReadError> {
        match <SerString as Ser>::spec_read(s) {
            Err(e) => Err(e),
            Ok((user_name, n1)) => {
                let s1 = s.skip(n1 as int);
                match <SerString as Ser>::spec_read(s1) {
                    Err(e) => Err(e),
                    Ok((user_bio, n2)) => {
                        Ok(((user_name, user_bio), n1 + n2))
                    },
                }
            },
        }
    }

    open spec fn spec_wf(v: (<SerString as View>::V, <SerString as View>::V)) -> bool {
        <SerString as Ser>::spec_wf(v.0) && <SerString as Ser>::spec_wf(v.1)
    }

    proof fn lemma_write_read(v: (<SerString as View>::V, <SerString as View>::V), rest: Seq<u8>) {
        let e1 = <SerString as Ser>::spec_write(v.0);
        let e2 = <SerString as Ser>::spec_write(v.1);
        assert(Self::spec_write(v) + rest =~= e1 + (e2 + rest));
        <SerString as Ser>::lemma_write_read(v.0, e2 + rest);
        lemma_skip_front(e1, e2 + rest);
        <SerString as Ser>::lemma_write_read(v.1, rest);
    }

    fn write(&self, out: &mut Vec<u8>) {
        let ghost start = out@;
        self.user_name.write(out);
        self.user_bio.write(out);
        assert(out@ =~= start + Self::spec_write(self@));
    }

    fn read(buf: &[u8], pos: usize) -> (res: Result<(ProfileData, usize), ReadError>) {
        let (user_name, p1) = <SerString as Ser>::read(buf, pos)?;
        proof {
            lemma_from_pos_skip(buf@, pos as int, p1 as int);
        }
        let (user_bio, p2) = <SerString as Ser>::read(buf, p1)?;
        Ok((ProfileData { user_name, user_bio }, p2))
    }
}

/// A server key is 32 bytes.
pub proof fn lemma_pubkey_len(k: Pubkey)
    ensures
        k@.len() == 32,
{
}

/// A server identifier is 8 bytes.
pub proof fn lemma_server_id_len(i: ServerId)
    ensures
        i@.len() == 8,
{
}

} // verus!
