//! The self-describing binary container format ("atom"): an 8-byte header
//! (body size, type identifier) followed by a body whose layout the type
//! identifier selects. Every accessor here reads a byte buffer in place and
//! never reads past the size that a header declares.
use vstd::prelude::*;
use vstd::slice::slice_subrange;

use crate::urid;

verus! {

// ---------------------------------------------------------------------------
// Integers stored little-endian
// ---------------------------------------------------------------------------

/// The unsigned integer held little-endian by `b[at..at + 4]`.
pub open spec fn le_u32(b: Seq<u8>, at: int) -> int {
    b[at] + 256 * b[at + 1] + 65536 * b[at + 2] + 16777216 * b[at + 3]
}

/// The unsigned integer held little-endian by `b[at..at + 8]`.
pub open spec fn le_u64(b: Seq<u8>, at: int) -> int {
    le_u32(b, at) + 4294967296 * le_u32(b, at + 4)
}

/// Two's complement reading of a 32-bit pattern.
pub open spec fn signed32(u: int) -> int {
    if u >= 0x8000_0000 { u - 0x1_0000_0000 } else { u }
}

/// Two's complement reading of a 64-bit pattern.
pub open spec fn signed64(u: int) -> int {
    if u >= 0x8000_0000_0000_0000 { u - 0x1_0000_0000_0000_0000 } else { u }
}

pub(crate) fn read_u32(b: &[u8], at: usize) -> (r: u32)
    requires
        at + 4 <= b@.len(),
    ensures
        r == le_u32(b@, at as int),
{
    let b0 = b[at] as u32;
    let b1 = b[at + 1] as u32;
    let b2 = b[at + 2] as u32;
    let b3 = b[at + 3] as u32;
    b0 + 256 * b1 + 65536 * b2 + 16777216 * b3
}

pub(crate) fn read_u64(b: &[u8], at: usize) -> (r: u64)
    requires
        at + 8 <= b@.len(),
    ensures
        r == le_u64(b@, at as int),
{
    let _n = b.len();
    let lo = read_u32(b, at) as u64;
    let hi = read_u32(b, at + 4) as u64;
    lo + 4294967296 * hi
}

fn to_i32(u: u32) -> (r: i32)
    ensures
        r == signed32(u as int),
{
    if u >= 0x8000_0000 {
        ((u - 0x8000_0000) as i32) - 0x7FFF_FFFF - 1
    } else {
        u as i32
    }
}

pub(crate) fn to_i64(u: u64) -> (r: i64)
    ensures
        r == signed64(u as int),
{
    if u >= 0x8000_0000_0000_0000 {
        ((u - 0x8000_0000_0000_0000) as i64) - 0x7FFF_FFFF_FFFF_FFFF - 1
    } else {
        u as i64
    }
}

// ---------------------------------------------------------------------------
// Padding
// ---------------------------------------------------------------------------

/// `n` rounded up to the next multiple of 8.
pub open spec fn pad8(n: int) -> int {
    ((n + 7) / 8) * 8
}

/// Rounds a body size up to the 8-byte boundary at which the next atom
/// starts.
pub fn pad_size(size: usize) -> (r: usize)
    requires
        size + 7 <= usize::MAX,
    ensures
        r == pad8(size as int),
{
    let s = size + 7;
    assert(s & !7usize == s - s % 8) by (bit_vector);
    s & !7usize
}

/// Padding to eight bytes is idempotent, never shrinks a size, and adds
/// fewer than eight bytes.
pub proof fn lemma_pad8(n: int)
    requires
        n >= 0,
    ensures
        pad8(pad8(n)) == pad8(n),
        pad8(n) >= n,
        pad8(n) - n < 8,
        pad8(n) % 8 == 0,
{
    let q = (n + 7) / 8;
    assert(pad8(n) == q * 8);
    assert((q * 8 + 7) / 8 == q) by (nonlinear_arith);
    assert(n + 7 < q * 8 + 8 && q * 8 <= n + 7) by (nonlinear_arith)
        requires q == (n + 7) / 8;
    assert((q * 8) % 8 == 0) by (nonlinear_arith);
}

// ---------------------------------------------------------------------------
// Header
// ---------------------------------------------------------------------------

/// The fixed 8-byte prefix of every atom: the byte length of the body that
/// follows (header and trailing padding excluded) and the body's type.
#[derive(Clone, Copy, Debug, PartialEq, Eq, Structural)]
pub struct Header {
    pub size: u32,
    pub type_urid: urid::URID,
}

/// The header stored at `b[at..at + 8]`.
pub open spec fn header_at(b: Seq<u8>, at: int) -> Header {
    Header { size: le_u32(b, at) as u32, type_urid: le_u32(b, at + 4) as u32 }
}

/// An atom is framed by a buffer when the buffer holds its header and the
/// whole body that the header declares.
pub open spec fn framed(b: Seq<u8>) -> bool {
    b.len() >= 8 && 8 + le_u32(b, 0) <= b.len()
}

/// A framed atom whose body has at least `min` bytes.
pub open spec fn framed_with(b: Seq<u8>, min: int) -> bool {
    framed(b) && le_u32(b, 0) >= min
}

impl Header {
    pub fn size(&self) -> (r: usize)
        ensures
            r == self.size,
    {
        self.size as usize
    }

    pub fn type_urid(&self) -> (r: urid::URID)
        ensures
            r == self.type_urid,
    {
        self.type_urid
    }

    /// Reads the header at the start of `b`; `None` when `b` is shorter
    /// than a header.
    pub fn from_bytes(b: &[u8]) -> (r: Option<Header>)
        ensures
            r == (if b@.len() >= 8 { Some(header_at(b@, 0)) } else { None::<Header> }),
    {
        if b.len() < 8 {
            None
        } else {
            Some(Header { size: read_u32(b, 0), type_urid: read_u32(b, 4) })
        }
    }
}

/// Reads the header of an atom that `b` must frame with a body of at least
/// `min` bytes.
fn framed_header(b: &[u8], min: u32) -> (r: Option<Header>)
    ensures
        r == (if framed_with(b@, min as int) { Some(header_at(b@, 0)) } else { None::<Header> }),
{
    if b.len() < 8 {
        return None;
    }
    let size = read_u32(b, 0);
    if size < min || b.len() - 8 < size as usize {
        return None;
    }
    Some(Header { size, type_urid: read_u32(b, 4) })
}

// ---------------------------------------------------------------------------
// The atom kinds
// ---------------------------------------------------------------------------

pub const URI: &'static str = "http://lv2plug.in/ns/ext/atom";
pub const CLASS_INT: &'static str = "http://lv2plug.in/ns/ext/atom#Int";
pub const CLASS_LONG: &'static str = "http://lv2plug.in/ns/ext/atom#Long";
pub const CLASS_FLOAT: &'static str = "http://lv2plug.in/ns/ext/atom#Float";
pub const CLASS_DOUBLE: &'static str = "http://lv2plug.in/ns/ext/atom#Double";
pub const CLASS_BOOL: &'static str = "http://lv2plug.in/ns/ext/atom#Bool";
pub const CLASS_URID: &'static str = "http://lv2plug.in/ns/ext/atom#URID";
pub const CLASS_STRING: &'static str = "http://lv2plug.in/ns/ext/atom#String";
pub const CLASS_LITERAL: &'static str = "http://lv2plug.in/ns/ext/atom#Literal";
pub const CLASS_TUPLE: &'static str = "http://lv2plug.in/ns/ext/atom#Tuple";
pub const CLASS_VECTOR: &'static str = "http://lv2plug.in/ns/ext/atom#Vector";
pub const CLASS_PROPERTY: &'static str = "http://lv2plug.in/ns/ext/atom#Property";
pub const CLASS_OBJECT: &'static str = "http://lv2plug.in/ns/ext/atom#Object";
pub const CLASS_SEQUENCE: &'static str = "http://lv2plug.in/ns/ext/atom#Sequence";
pub const CLASS_EVENT: &'static str = "http://lv2plug.in/ns/ext/atom#Event";

/// What every atom kind offers: the URI of its type and its header.
pub trait Atom {
    /// The header that the atom was decoded with.
    spec fn spec_header(&self) -> Header;

    fn type_uri() -> &'static str;

    fn header(&self) -> (r: Header)
        ensures
            r == self.spec_header(),
    ;

    fn type_urid(&self) -> (r: urid::URID)
        ensures
            r == self.spec_header().type_urid,
    {
        self.header().type_urid
    }

    fn size(&self) -> (r: usize)
        ensures
            r == self.spec_header().size,
    {
        self.header().size as usize
    }
}

/// An atom whose body is a single value.
pub trait Value<T>: Atom {
    spec fn spec_value(&self) -> T;

    fn value(&self) -> (r: T)
        ensures
            r == self.spec_value(),
    ;
}

/// A 32-bit signed integer atom.
#[derive(Clone, Copy, Debug)]
pub struct Int {
    pub header: Header,
    pub body: i32,
}

/// A 64-bit signed integer atom.
#[derive(Clone, Copy, Debug)]
pub struct Long {
    pub header: Header,
    pub body: i64,
}

/// A 32-bit float atom, held as its bit pattern.
#[derive(Clone, Copy, Debug)]
pub struct Float {
    pub header: Header,
    pub bits: u32,
}

/// A 64-bit float atom, held as its bit pattern.
#[derive(Clone, Copy, Debug)]
pub struct Double {
    pub header: Header,
    pub bits: u64,
}

/// A boolean atom: a 32-bit integer, nonzero meaning true.
#[derive(Clone, Copy, Debug)]
pub struct Bool {
    pub header: Header,
    pub body: i32,
}

/// An atom that holds a numeric identifier.
#[derive(Clone, Copy, Debug)]
pub struct URID {
    pub header: Header,
    pub body: urid::URID,
}

/// The 32-bit scalar body of the atom that `b` frames.
pub open spec fn body32(b: Seq<u8>) -> int {
    le_u32(b, 8)
}

/// The 64-bit scalar body of the atom that `b` frames.
pub open spec fn body64(b: Seq<u8>) -> int {
    le_u64(b, 8)
}

pub open spec fn parse_int(b: Seq<u8>) -> Option<Int> {
    if framed_with(b, 4) {
        Some(Int { header: header_at(b, 0), body: signed32(body32(b)) as i32 })
    } else {
        None
    }
}

pub open spec fn parse_long(b: Seq<u8>) -> Option<Long> {
    if framed_with(b, 8) {
        Some(Long { header: header_at(b, 0), body: signed64(body64(b)) as i64 })
    } else {
        None
    }
}

pub open spec fn parse_float(b: Seq<u8>) -> Option<Float> {
    if framed_with(b, 4) {
        Some(Float { header: header_at(b, 0), bits: body32(b) as u32 })
    } else {
        None
    }
}

pub open spec fn parse_double(b: Seq<u8>) -> Option<Double> {
    if framed_with(b, 8) {
        Some(Double { header: header_at(b, 0), bits: body64(b) as u64 })
    } else {
        None
    }
}

pub open spec fn parse_bool(b: Seq<u8>) -> Option<Bool> {
    if framed_with(b, 4) {
        Some(Bool { header: header_at(b, 0), body: signed32(body32(b)) as i32 })
    } else {
        None
    }
}

pub open spec fn parse_urid(b: Seq<u8>) -> Option<URID> {
    if framed_with(b, 4) {
        Some(URID { header: header_at(b, 0), body: body32(b) as u32 })
    } else {
        None
    }
}

impl Int {
    /// Decodes the integer atom that `b` frames; `None` when `b` does not
    /// hold the header and a 4-byte body within the declared size.
    pub fn from_bytes(b: &[u8]) -> (r: Option<Int>)
        ensures
            r == parse_int(b@),
    {
        match framed_header(b, 4) {
            None => None,
            Some(header) => Some(Int { header, body: to_i32(read_u32(b, 8)) }),
        }
    }
}

impl Long {
    pub fn from_bytes(b: &[u8]) -> (r: Option<Long>)
        ensures
            r == parse_long(b@),
    {
        match framed_header(b, 8) {
            None => None,
            Some(header) => Some(Long { header, body: to_i64(read_u64(b, 8)) }),
        }
    }
}

impl Float {
    pub fn from_bytes(b: &[u8]) -> (r: Option<Float>)
        ensures
            r == parse_float(b@),
    {
        match framed_header(b, 4) {
            None => None,
            Some(header) => Some(Float { header, bits: read_u32(b, 8) }),
        }
    }

    /// The IEEE-754 bit pattern of the value.
    pub fn bits(&self) -> (r: u32)
        ensures
            r == self.bits,
    {
        self.bits
    }
}

impl Double {
    pub fn from_bytes(b: &[u8]) -> (r: Option<Double>)
        ensures
            r == parse_double(b@),
    {
        match framed_header(b, 8) {
            None => None,
            Some(header) => Some(Double { header, bits: read_u64(b, 8) }),
        }
    }

    /// The IEEE-754 bit pattern of the value.
    pub fn bits(&self) -> (r: u64)
        ensures
            r == self.bits,
    {
        self.bits
    }
}

impl Bool {
    pub fn from_bytes(b: &[u8]) -> (r: Option<Bool>)
        ensures
            r == parse_bool(b@),
    {
        match framed_header(b, 4) {
            None => None,
            Some(header) => Some(Bool { header, body: to_i32(read_u32(b, 8)) }),
        }
    }
}

impl URID {
    pub fn from_bytes(b: &[u8]) -> (r: Option<URID>)
        ensures
            r == parse_urid(b@),
    {
        match framed_header(b, 4) {
            None => None,
            Some(header) => Some(URID { header, body: read_u32(b, 8) }),
        }
    }
}

impl Atom for Int {
    open spec fn spec_header(&self) -> Header {
        self.header
    }

    fn type_uri() -> &'static str {
        CLASS_INT
    }

    fn header(&self) -> Header {
        self.header
    }
}

impl Value<i32> for Int {
    open spec fn spec_value(&self) -> i32 {
        self.body
    }

    fn value(&self) -> i32 {
        self.body
    }
}

impl Atom for Long {
    open spec fn spec_header(&self) -> Header {
        self.header
    }

    fn type_uri() -> &'static str {
        CLASS_LONG
    }

    fn header(&self) -> Header {
        self.header
    }
}

impl Value<i64> for Long {
    open spec fn spec_value(&self) -> i64 {
        self.body
    }

    fn value(&self) -> i64 {
        self.body
    }
}

impl Atom for Float {
    open spec fn spec_header(&self) -> Header {
        self.header
    }

    fn type_uri() -> &'static str {
        CLASS_FLOAT
    }

    fn header(&self) -> Header {
        self.header
    }
}

impl Atom for Double {
    open spec fn spec_header(&self) -> Header {
        self.header
    }

    fn type_uri() -> &'static str {
        CLASS_DOUBLE
    }

    fn header(&self) -> Header {
        self.header
    }
}

impl Atom for Bool {
    open spec fn spec_header(&self) -> Header {
        self.header
    }

    fn type_uri() -> &'static str {
        CLASS_BOOL
    }

    fn header(&self) -> Header {
        self.header
    }
}

impl Value<bool> for Bool {
    open spec fn spec_value(&self) -> bool {
        self.body != 0
    }

    fn value(&self) -> bool {
        self.body != 0
    }
}

impl Atom for URID {
    open spec fn spec_header(&self) -> Header {
        self.header
    }

    fn type_uri() -> &'static str {
        CLASS_URID
    }

    fn header(&self) -> Header {
        self.header
    }
}

impl Value<urid::URID> for URID {
    open spec fn spec_value(&self) -> urid::URID {
        self.body
    }

    fn value(&self) -> urid::URID {
        self.body
    }
}

// ---------------------------------------------------------------------------
// Atoms with a variable body
// ---------------------------------------------------------------------------

/// The bytes of the atom that `b` frames from offset `at` to the end of the
/// declared body.
pub open spec fn body_from(b: Seq<u8>, at: int) -> Seq<u8> {
    b.subrange(at, 8 + le_u32(b, 0))
}

/// The body of the atom that `b` frames; `None` when `b` is shorter than
/// the header or than the body it declares.
pub fn contents<'a>(b: &'a [u8]) -> (r: Option<&'a [u8]>)
    ensures
        match r {
            Some(body) => framed(b@) && body@ == body_from(b@, 8),
            None => !framed(b@),
        },
{
    match framed_header(b, 0) {
        None => None,
        Some(header) => Some(body_slice(b, header, 8)),
    }
}

/// Slices the body of a framed atom from `at` on.
fn body_slice<'a>(b: &'a [u8], header: Header, at: usize) -> (r: &'a [u8])
    requires
        framed_with(b@, at - 8),
        at >= 8,
        header == header_at(b@, 0),
    ensures
        r@ == body_from(b@, at as int),
{
    let _n = b.len();
    slice_subrange(b, at, 8 + header.size as usize)
}

/// The index of the first zero byte of `b` at or after `i`, or the length of
/// `b` when there is none.
pub open spec fn first_nul(b: Seq<u8>, i: int) -> int
    decreases b.len() - i,
{
    if i < 0 || i >= b.len() {
        b.len() as int
    } else if b[i] == 0 {
        i
    } else {
        first_nul(b, i + 1)
    }
}

/// The text of a body: its bytes up to the first zero byte.
pub open spec fn text_bytes(b: Seq<u8>) -> Seq<u8> {
    b.subrange(0, first_nul(b, 0))
}

proof fn lemma_first_nul_bounds(b: Seq<u8>, i: int)
    requires
        0 <= i <= b.len(),
    ensures
        i <= first_nul(b, i) <= b.len(),
    decreases b.len() - i,
{
    if i < b.len() && b[i] != 0 {
        lemma_first_nul_bounds(b, i + 1);
    }
}

/// The length of the text that `b` holds before its first zero byte.
fn text_len(b: &[u8]) -> (r: usize)
    ensures
        r == first_nul(b@, 0),
{
    let mut i: usize = 0;
    while i < b.len()
        invariant
            0 <= i <= b@.len(),
            first_nul(b@, i as int) == first_nul(b@, 0),
        decreases b@.len() - i,
    {
        if b[i] == 0 {
            return i;
        }
        i = i + 1;
    }
    i
}

/// What `std::str::from_utf8` makes of a byte sequence: the characters it
/// encodes, or `None` when it is not valid UTF-8.
pub uninterp spec fn utf8_text(b: Seq<u8>) -> Option<Seq<char>>;

/// Relies on `std::str::from_utf8`: it accepts exactly the valid UTF-8 byte
/// sequences and then views the same bytes as text.
#[verifier::external_body]
fn str_from_utf8(b: &[u8]) -> (r: Option<&str>)
    ensures
        match r {
            Some(t) => utf8_text(b@) == Some(t@),
            None => utf8_text(b@) is None,
        },
{
    std::str::from_utf8(b).ok()
}

/// Decodes the text of a body: the bytes up to its first zero byte, which
/// must be valid UTF-8.
fn decode_text<'a>(body: &'a [u8]) -> (r: Option<&'a str>)
    ensures
        match r {
            Some(t) => utf8_text(text_bytes(body@)) == Some(t@),
            None => utf8_text(text_bytes(body@)) is None,
        },
{
    let n = text_len(body);
    proof {
        lemma_first_nul_bounds(body@, 0);
    }
    str_from_utf8(slice_subrange(body, 0, n))
}

/// An atom whose body is read as a value of type `T`, which may fail on a
/// malformed body.
pub trait Contents<T: ?Sized>: Atom {
    fn contents(&self) -> Option<&T>;
}

/// A text atom: UTF-8 bytes, ended by a zero byte or by the declared size.
pub struct String<'a> {
    pub header: Header,
    pub text: &'a [u8],
}

/// The two identifiers that lead the body of a literal atom.
#[derive(Clone, Copy, Debug)]
pub struct LiteralBody {
    pub datatype: urid::URID,
    pub lang: urid::URID,
}

/// A text atom tagged with a datatype or a language.
pub struct Literal<'a> {
    pub header: Header,
    pub body: LiteralBody,
    pub text: &'a [u8],
}

/// A concatenation of atoms, with no other data.
pub struct Tuple<'a> {
    pub header: Header,
    pub items: &'a [u8],
}

/// The size and type of each child of a vector atom.
#[derive(Clone, Copy, Debug)]
pub struct VectorBody {
    pub child_size: u32,
    pub child_type: u32,
}

/// A run of child bodies of one size and type.
pub struct Vector<'a> {
    pub header: Header,
    pub body: VectorBody,
    pub items: &'a [u8],
}

/// The key, context and value header that lead a property atom's body.
#[derive(Clone, Copy, Debug)]
pub struct PropertyBody {
    pub key: urid::URID,
    pub context: urid::URID,
    pub value: Header,
}

/// A key and the atom bound to it.
pub struct Property<'a> {
    pub header: Header,
    pub body: PropertyBody,
    pub value_body: &'a [u8],
}

/// The identifier and type that lead an object atom's body.
#[derive(Clone, Copy, Debug)]
pub struct ObjectBody {
    pub id: urid::URID,
    pub otype: urid::URID,
}

/// An identified resource with properties.
pub struct Object<'a> {
    pub header: Header,
    pub body: ObjectBody,
    pub items: &'a [u8],
}

pub open spec fn parse_string(b: Seq<u8>) -> Option<(Header, Seq<u8>)> {
    if framed(b) {
        Some((header_at(b, 0), body_from(b, 8)))
    } else {
        None
    }
}

/// The layout shared by the atoms whose body starts with two 32-bit fields:
/// the header, the two fields, and the bytes after them.
pub open spec fn parse_pair(b: Seq<u8>) -> Option<(Header, u32, u32, Seq<u8>)> {
    if framed_with(b, 8) {
        Some((header_at(b, 0), le_u32(b, 8) as u32, le_u32(b, 12) as u32, body_from(b, 16)))
    } else {
        None
    }
}

/// Reads the header, the two leading fields and the rest of the body of an
/// atom laid out as `parse_pair` says.
pub(crate) fn read_pair<'a>(b: &'a [u8]) -> (r: Option<(Header, u32, u32, &'a [u8])>)
    ensures
        match r {
            Some((h, x, y, rest)) => parse_pair(b@) == Some((h, x, y, rest@)),
            None => parse_pair(b@) is None,
        },
{
    match framed_header(b, 8) {
        None => None,
        Some(header) => {
            let x = read_u32(b, 8);
            let y = read_u32(b, 12);
            Some((header, x, y, body_slice(b, header, 16)))
        },
    }
}

impl<'a> String<'a> {
    pub fn from_bytes(b: &'a [u8]) -> (r: Option<String<'a>>)
        ensures
            match r {
                Some(a) => parse_string(b@) == Some((a.header, a.text@)),
                None => parse_string(b@) is None,
            },
    {
        match framed_header(b, 0) {
            None => None,
            Some(header) => Some(String { header, text: body_slice(b, header, 8) }),
        }
    }
}

impl<'a> Literal<'a> {
    pub fn from_bytes(b: &'a [u8]) -> (r: Option<Literal<'a>>)
        ensures
            match r {
                Some(a) => parse_pair(b@) == Some(
                    (a.header, a.body.datatype, a.body.lang, a.text@),
                ),
                None => parse_pair(b@) is None,
            },
    {
        match read_pair(b) {
            None => None,
            Some((header, datatype, lang, text)) => Some(
                Literal { header, body: LiteralBody { datatype, lang }, text },
            ),
        }
    }
}

impl<'a> Tuple<'a> {
    pub fn from_bytes(b: &'a [u8]) -> (r: Option<Tuple<'a>>)
        ensures
            match r {
                Some(a) => parse_string(b@) == Some((a.header, a.items@)),
                None => parse_string(b@) is None,
            },
    {
        match framed_header(b, 0) {
            None => None,
            Some(header) => Some(Tuple { header, items: body_slice(b, header, 8) }),
        }
    }
}

impl<'a> Vector<'a> {
    pub fn from_bytes(b: &'a [u8]) -> (r: Option<Vector<'a>>)
        ensures
            match r {
                Some(a) => parse_pair(b@) == Some(
                    (a.header, a.body.child_size, a.body.child_type, a.items@),
                ),
                None => parse_pair(b@) is None,
            },
    {
        match read_pair(b) {
            None => None,
            Some((header, child_size, child_type, items)) => Some(
                Vector { header, body: VectorBody { child_size, child_type }, items },
            ),
        }
    }
}

pub open spec fn parse_property(b: Seq<u8>) -> Option<(Header, PropertyBody, Seq<u8>)> {
    if framed_with(b, 16) {
        Some(
            (
                header_at(b, 0),
                PropertyBody {
                    key: le_u32(b, 8) as u32,
                    context: le_u32(b, 12) as u32,
                    value: header_at(b, 16),
                },
                body_from(b, 24),
            ),
        )
    } else {
        None
    }
}

impl<'a> Property<'a> {
    pub fn from_bytes(b: &'a [u8]) -> (r: Option<Property<'a>>)
        ensures
            match r {
                Some(a) => parse_property(b@) == Some((a.header, a.body, a.value_body@)),
                None => parse_property(b@) is None,
            },
    {
        match framed_header(b, 16) {
            None => None,
            Some(header) => {
                let value = Header { size: read_u32(b, 16), type_urid: read_u32(b, 20) };
                let body = PropertyBody { key: read_u32(b, 8), context: read_u32(b, 12), value };
                Some(Property { header, body, value_body: body_slice(b, header, 24) })
            },
        }
    }
}

impl<'a> Object<'a> {
    pub fn from_bytes(b: &'a [u8]) -> (r: Option<Object<'a>>)
        ensures
            match r {
                Some(a) => parse_pair(b@) == Some((a.header, a.body.id, a.body.otype, a.items@)),
                None => parse_pair(b@) is None,
            },
    {
        match read_pair(b) {
            None => None,
            Some((header, id, otype, items)) => Some(
                Object { header, body: ObjectBody { id, otype }, items },
            ),
        }
    }
}

impl<'a> Contents<str> for String<'a> {
    fn contents(&self) -> (r: Option<&str>)
        ensures
            match r {
                Some(t) => utf8_text(text_bytes(self.text@)) == Some(t@),
                None => utf8_text(text_bytes(self.text@)) is None,
            },
    {
        decode_text(self.text)
    }
}

impl<'a> Contents<str> for Literal<'a> {
    fn contents(&self) -> (r: Option<&str>)
        ensures
            match r {
                Some(t) => utf8_text(text_bytes(self.text@)) == Some(t@),
                None => utf8_text(text_bytes(self.text@)) is None,
            },
    {
        decode_text(self.text)
    }
}

impl<'a> Atom for String<'a> {
    open spec fn spec_header(&self) -> Header {
        self.header
    }

    fn type_uri() -> &'static str {
        CLASS_STRING
    }

    fn header(&self) -> Header {
        self.header
    }
}

impl<'a> Atom for Literal<'a> {
    open spec fn spec_header(&self) -> Header {
        self.header
    }

    fn type_uri() -> &'static str {
        CLASS_LITERAL
    }

    fn header(&self) -> Header {
        self.header
    }
}

impl<'a> Atom for Tuple<'a> {
    open spec fn spec_header(&self) -> Header {
        self.header
    }

    fn type_uri() -> &'static str {
        CLASS_TUPLE
    }

    fn header(&self) -> Header {
        self.header
    }
}

impl<'a> Atom for Vector<'a> {
    open spec fn spec_header(&self) -> Header {
        self.header
    }

    fn type_uri() -> &'static str {
        CLASS_VECTOR
    }

    fn header(&self) -> Header {
        self.header
    }
}

impl<'a> Atom for Property<'a> {
    open spec fn spec_header(&self) -> Header {
        self.header
    }

    fn type_uri() -> &'static str {
        CLASS_PROPERTY
    }

    fn header(&self) -> Header {
        self.header
    }
}

impl<'a> Atom for Object<'a> {
    open spec fn spec_header(&self) -> Header {
        self.header
    }

    fn type_uri() -> &'static str {
        CLASS_OBJECT
    }

    fn header(&self) -> Header {
        self.header
    }
}

// ---------------------------------------------------------------------------
// Encoding, and what decoding makes of it
// ---------------------------------------------------------------------------

/// The four bytes that hold `v` little-endian.
pub open spec fn le32_bytes(v: int) -> Seq<u8> {
    seq![
        (v % 256) as u8,
        ((v / 256) % 256) as u8,
        ((v / 256 / 256) % 256) as u8,
        ((v / 256 / 256 / 256) % 256) as u8,
    ]
}

/// The eight bytes that hold `v` little-endian.
pub open spec fn le64_bytes(v: int) -> Seq<u8> {
    le32_bytes(v % 0x1_0000_0000) + le32_bytes(v / 0x1_0000_0000)
}

/// The 32-bit pattern of a signed value.
pub open spec fn unsigned32(i: int) -> int {
    if i < 0 { i + 0x1_0000_0000 } else { i }
}

/// The 64-bit pattern of a signed value.
pub open spec fn unsigned64(i: int) -> int {
    if i < 0 { i + 0x1_0000_0000_0000_0000 } else { i }
}

/// The eight bytes of a header.
pub open spec fn header_bytes(h: Header) -> Seq<u8> {
    le32_bytes(h.size as int) + le32_bytes(h.type_urid as int)
}

/// An atom with a 4-byte body holding the pattern `bits`.
pub open spec fn atom32_bytes(type_urid: urid::URID, bits: int) -> Seq<u8> {
    header_bytes(Header { size: 4, type_urid }) + le32_bytes(bits)
}

/// An atom with an 8-byte body holding the pattern `bits`.
pub open spec fn atom64_bytes(type_urid: urid::URID, bits: int) -> Seq<u8> {
    header_bytes(Header { size: 8, type_urid }) + le64_bytes(bits)
}

pub proof fn lemma_le32(b: Seq<u8>, at: int, v: int)
    requires
        0 <= v < 0x1_0000_0000,
        0 <= at,
        at + 4 <= b.len(),
        b.subrange(at, at + 4) == le32_bytes(v),
    ensures
        le_u32(b, at) == v,
{
    let e = le32_bytes(v);
    assert(b[at] == e[0] && b[at + 1] == e[1] && b[at + 2] == e[2] && b[at + 3] == e[3]) by {
        assert(b.subrange(at, at + 4)[0] == b[at]);
        assert(b.subrange(at, at + 4)[1] == b[at + 1]);
        assert(b.subrange(at, at + 4)[2] == b[at + 2]);
        assert(b.subrange(at, at + 4)[3] == b[at + 3]);
    }
    let r1 = v / 256;
    let r2 = r1 / 256;
    let r3 = r2 / 256;
    assert(v == v % 256 + 256 * r1);
    assert(r1 == r1 % 256 + 256 * r2);
    assert(r2 == r2 % 256 + 256 * r3);
    assert(r3 < 256);
}

pub proof fn lemma_le64(b: Seq<u8>, at: int, v: int)
    requires
        0 <= v < 0x1_0000_0000_0000_0000,
        0 <= at,
        at + 8 <= b.len(),
        b.subrange(at, at + 8) == le64_bytes(v),
    ensures
        le_u64(b, at) == v,
{
    let lo = v % 0x1_0000_0000;
    let hi = v / 0x1_0000_0000;
    assert(b.subrange(at, at + 4) =~= b.subrange(at, at + 8).subrange(0, 4));
    assert(b.subrange(at + 4, at + 8) =~= b.subrange(at, at + 8).subrange(4, 8));
    assert(le64_bytes(v).subrange(0, 4) =~= le32_bytes(lo));
    assert(le64_bytes(v).subrange(4, 8) =~= le32_bytes(hi));
    lemma_le32(b, at, lo);
    lemma_le32(b, at + 4, hi);
}

proof fn lemma_header32(t: urid::URID, bits: int, b: Seq<u8>)
    requires
        0 <= bits < 0x1_0000_0000,
        b == atom32_bytes(t, bits),
    ensures
        framed_with(b, 4),
        header_at(b, 0) == (Header { size: 4, type_urid: t }),
        body32(b) == bits,
{
    assert(b.subrange(0, 4) =~= le32_bytes(4));
    assert(b.subrange(4, 8) =~= le32_bytes(t as int));
    assert(b.subrange(8, 12) =~= le32_bytes(bits));
    lemma_le32(b, 0, 4);
    lemma_le32(b, 4, t as int);
    lemma_le32(b, 8, bits);
}

proof fn lemma_header64(t: urid::URID, bits: int, b: Seq<u8>)
    requires
        0 <= bits < 0x1_0000_0000_0000_0000,
        b == atom64_bytes(t, bits),
    ensures
        framed_with(b, 8),
        header_at(b, 0) == (Header { size: 8, type_urid: t }),
        body64(b) == bits,
{
    assert(b.subrange(0, 4) =~= le32_bytes(8));
    assert(b.subrange(4, 8) =~= le32_bytes(t as int));
    assert(b.subrange(8, 16) =~= le64_bytes(bits));
    lemma_le32(b, 0, 8);
    lemma_le32(b, 4, t as int);
    lemma_le64(b, 8, bits);
}

/// An integer atom decodes to the value it was encoded from.
pub proof fn lemma_int_round_trip(type_urid: urid::URID, v: i32)
    ensures
        parse_int(atom32_bytes(type_urid, unsigned32(v as int))) == Some(
            Int { header: Header { size: 4, type_urid }, body: v },
        ),
{
    lemma_header32(type_urid, unsigned32(v as int), atom32_bytes(type_urid, unsigned32(v as int)));
}

/// A long integer atom decodes to the value it was encoded from.
pub proof fn lemma_long_round_trip(type_urid: urid::URID, v: i64)
    ensures
        parse_long(atom64_bytes(type_urid, unsigned64(v as int))) == Some(
            Long { header: Header { size: 8, type_urid }, body: v },
        ),
{
    lemma_header64(type_urid, unsigned64(v as int), atom64_bytes(type_urid, unsigned64(v as int)));
}

/// A float atom decodes to the bit pattern it was encoded from.
pub proof fn lemma_float_round_trip(type_urid: urid::URID, bits: u32)
    ensures
        parse_float(atom32_bytes(type_urid, bits as int)) == Some(
            Float { header: Header { size: 4, type_urid }, bits },
        ),
{
    lemma_header32(type_urid, bits as int, atom32_bytes(type_urid, bits as int));
}

/// A double atom decodes to the bit pattern it was encoded from.
pub proof fn lemma_double_round_trip(type_urid: urid::URID, bits: u64)
    ensures
        parse_double(atom64_bytes(type_urid, bits as int)) == Some(
            Double { header: Header { size: 8, type_urid }, bits },
        ),
{
    lemma_header64(type_urid, bits as int, atom64_bytes(type_urid, bits as int));
}

/// A boolean atom, stored as 1 or 0, decodes to the value it was encoded
/// from.
pub proof fn lemma_bool_round_trip(type_urid: urid::URID, v: bool)
    ensures
        parse_bool(atom32_bytes(type_urid, if v { 1 } else { 0 })) is Some,
        parse_bool(atom32_bytes(type_urid, if v { 1 } else { 0 }))->Some_0.spec_value() == v,
        parse_bool(atom32_bytes(type_urid, if v { 1 } else { 0 }))->Some_0.header == (Header {
            size: 4,
            type_urid,
        }),
{
    lemma_header32(type_urid, if v { 1 } else { 0 }, atom32_bytes(type_urid, if v { 1 } else { 0 }));
}

/// An identifier atom decodes to the identifier it was encoded from.
pub proof fn lemma_urid_round_trip(type_urid: urid::URID, v: urid::URID)
    ensures
        parse_urid(atom32_bytes(type_urid, v as int)) == Some(
            URID { header: Header { size: 4, type_urid }, body: v },
        ),
{
    lemma_header32(type_urid, v as int, atom32_bytes(type_urid, v as int));
}

} // verus!
