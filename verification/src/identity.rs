//! Deterministic identity for a (test suite, test case) pair.
//!
//! The identifier is a 64-bit hash of the two names, computed with
//! SipHash-1-3 over the UTF-8 bytes of the suite name, a `0xff` terminator,
//! the bytes of the case name and a second terminator, with an all-zero key.
//! The whole computation is implemented and verified here, so the identifier
//! is stable across runs and machines: no random seed, no address-based state.

use crate::strutil::push_char;
use vstd::prelude::*;
use vstd::utf8::encode_utf8;

verus! {

/// Name of a test suite, as reported by a runner.
#[derive(Debug)]
pub struct TestSuite(pub String);

/// Name of a single test case within a suite.
#[derive(Debug)]
pub struct TestCase(pub String);

/// The 64-bit identifier of a fully qualified test case.
#[derive(Debug, Clone, Copy, PartialEq, Eq, Structural)]
pub struct FullyQualifiedTestCaseId(pub u64);

/// A (suite, case) pair together with its identifier.
#[derive(Debug)]
pub struct FullyQualifiedTestCase {
    pub test_suite: TestSuite,
    pub test_case: TestCase,
    pub id: FullyQualifiedTestCaseId,
}

/// The mathematical content of a fully qualified test case: the two names
/// and the 64-bit identifier.
pub ghost struct FqView {
    pub suite: Seq<char>,
    pub case: Seq<char>,
    pub id: u64,
}

impl FqView {
    /// The identifier is the one the two names determine.
    pub open spec fn wf(&self) -> bool {
        self.id == case_id_of(self.suite, self.case)
    }
}

impl View for FullyQualifiedTestCase {
    type V = FqView;

    open spec fn view(&self) -> FqView {
        FqView { suite: self.test_suite.0@, case: self.test_case.0@, id: self.id.0 }
    }
}

impl Clone for TestSuite {
    fn clone(&self) -> (r: Self)
        ensures
            r.0@ == self.0@,
    {
        TestSuite(self.0.clone())
    }
}

impl Clone for TestCase {
    fn clone(&self) -> (r: Self)
        ensures
            r.0@ == self.0@,
    {
        TestCase(self.0.clone())
    }
}

impl Clone for FullyQualifiedTestCase {
    fn clone(&self) -> (r: Self)
        ensures
            r@ == self@,
    {
        FullyQualifiedTestCase {
            test_suite: self.test_suite.clone(),
            test_case: self.test_case.clone(),
            id: self.id,
        }
    }
}

// --- SipHash-1-3 at the specification level ---

/// One SipHash mixing round over the four lanes.
pub open spec fn sip_round(v: (u64, u64, u64, u64)) -> (u64, u64, u64, u64) {
    let (v0, v1, v2, v3) = v;
    let v0 = v0.wrapping_add(v1);
    let v1 = rotl(v1, 13);
    let v1 = v1 ^ v0;
    let v0 = rotl(v0, 32);
    let v2 = v2.wrapping_add(v3);
    let v3 = rotl(v3, 16);
    let v3 = v3 ^ v2;
    let v0 = v0.wrapping_add(v3);
    let v3 = rotl(v3, 21);
    let v3 = v3 ^ v0;
    let v2 = v2.wrapping_add(v1);
    let v1 = rotl(v1, 17);
    let v1 = v1 ^ v2;
    let v2 = rotl(v2, 32);
    (v0, v1, v2, v3)
}

/// Rotate a 64-bit lane left by `n` bits.
pub open spec fn rotl(x: u64, n: u64) -> u64
    recommends
        0 < n < 64,
{
    (x << n) | (x >> ((64 - n) as u64))
}

/// Absorb one 64-bit message word: xor into `v3`, one round, xor into `v0`.
pub open spec fn sip_absorb(v: (u64, u64, u64, u64), m: u64) -> (u64, u64, u64, u64) {
    let v = (v.0, v.1, v.2, v.3 ^ m);
    let v = sip_round(v);
    (v.0 ^ m, v.1, v.2, v.3)
}

/// Little-endian value of at most eight bytes.
pub open spec fn le_word(s: Seq<u8>) -> u64
    recommends
        s.len() <= 8,
    decreases s.len(),
{
    if s.len() == 0 {
        0u64
    } else {
        le_word(s.drop_last()) | ((s.last() as u64) << ((8 * (s.len() - 1)) as u64))
    }
}

/// The state reached from `v` after absorbing every full 8-byte block of `msg`.
pub open spec fn sip_blocks(v: (u64, u64, u64, u64), msg: Seq<u8>) -> (u64, u64, u64, u64)
    decreases msg.len(),
{
    if msg.len() < 8 {
        v
    } else {
        sip_blocks(sip_absorb(v, le_word(msg.take(8))), msg.skip(8))
    }
}

/// The initial state for the all-zero key.
pub open spec fn sip_init() -> (u64, u64, u64, u64) {
    (0x736f6d6570736575u64, 0x646f72616e646f6du64, 0x6c7967656e657261u64, 0x7465646279746573u64)
}

/// SipHash-1-3 of a byte sequence, with the all-zero key.
pub open spec fn siphash13(msg: Seq<u8>) -> u64 {
    let tail = msg.skip(msg.len() - (msg.len() % 8));
    let b = ((((msg.len() % 256) as u64) << 56u64) | le_word(tail));
    let v = sip_blocks(sip_init(), msg);
    let v = sip_absorb(v, b);
    let v = (v.0, v.1, v.2 ^ 0xffu64, v.3);
    let v = sip_round(sip_round(sip_round(v)));
    v.0 ^ v.1 ^ v.2 ^ v.3
}

/// The byte stream hashed for a (suite, case) pair: each name's UTF-8 bytes,
/// each followed by a `0xff` terminator.
pub open spec fn id_stream(suite: Seq<char>, case: Seq<char>) -> Seq<u8> {
    encode_utf8(suite) + seq![0xffu8] + encode_utf8(case) + seq![0xffu8]
}

/// The identifier of a (suite, case) pair: a pure function of the two names.
pub open spec fn case_id_of(suite: Seq<char>, case: Seq<char>) -> u64 {
    siphash13(id_stream(suite, case))
}

/// Processing the blocks of a concatenation processes each part in turn, as
/// long as the first part consists of whole blocks.
proof fn lemma_sip_blocks_append(v: (u64, u64, u64, u64), s: Seq<u8>, t: Seq<u8>)
    requires
        s.len() % 8 == 0,
    ensures
        sip_blocks(v, s + t) == sip_blocks(sip_blocks(v, s), t),
    decreases s.len(),
{
    if s.len() == 0 {
        assert(s + t =~= t);
    } else {
        assert((s + t).take(8) =~= s.take(8));
        assert((s + t).skip(8) =~= s.skip(8) + t);
        lemma_sip_blocks_append(sip_absorb(v, le_word(s.take(8))), s.skip(8), t);
    }
}

// --- executable SipHash-1-3 ---

fn rotl_x(x: u64, n: u64) -> (r: u64)
    requires
        0 < n < 64,
    ensures
        r == rotl(x, n),
{
    (x << n) | (x >> (64 - n))
}

fn sip_round_x(v: (u64, u64, u64, u64)) -> (r: (u64, u64, u64, u64))
    ensures
        r == sip_round(v),
{
    let (v0, v1, v2, v3) = v;
    let v0 = v0.wrapping_add(v1);
    let v1 = rotl_x(v1, 13);
    let v1 = v1 ^ v0;
    let v0 = rotl_x(v0, 32);
    let v2 = v2.wrapping_add(v3);
    let v3 = rotl_x(v3, 16);
    let v3 = v3 ^ v2;
    let v0 = v0.wrapping_add(v3);
    let v3 = rotl_x(v3, 21);
    let v3 = v3 ^ v0;
    let v2 = v2.wrapping_add(v1);
    let v1 = rotl_x(v1, 17);
    let v1 = v1 ^ v2;
    let v2 = rotl_x(v2, 32);
    (v0, v1, v2, v3)
}

fn sip_absorb_x(v: (u64, u64, u64, u64), m: u64) -> (r: (u64, u64, u64, u64))
    ensures
        r == sip_absorb(v, m),
{
    let v = (v.0, v.1, v.2, v.3 ^ m);
    let v = sip_round_x(v);
    (v.0 ^ m, v.1, v.2, v.3)
}

/// Little-endian load of the bytes `msg[from..to]`, at most eight of them.
fn le_word_x(msg: &Vec<u8>, from: usize, to: usize) -> (r: u64)
    requires
        from <= to <= msg@.len(),
        to - from <= 8,
    ensures
        r == le_word(msg@.subrange(from as int, to as int)),
{
    let mut m: u64 = 0;
    let mut j: usize = 0;
    while j < to - from
        invariant
            from <= to <= msg@.len(),
            to - from <= 8,
            j <= to - from,
            m == le_word(msg@.subrange(from as int, from + j)),
        decreases to - from - j,
    {
        proof {
            assert(msg@.subrange(from as int, from + j + 1).drop_last() =~= msg@.subrange(
                from as int,
                from + j,
            ));
            assert(msg@.subrange(from as int, from + j + 1).last() == msg@[from + j]);
        }
        m = m | ((msg[from + j] as u64) << ((8 * (j as u64))));
        j = j + 1;
    }
    proof {
        assert(msg@.subrange(from as int, from + (to - from)) =~= msg@.subrange(
            from as int,
            to as int,
        ));
    }
    m
}

/// SipHash-1-3 of a byte vector, with the all-zero key.
fn siphash13_x(msg: &Vec<u8>) -> (r: u64)
    ensures
        r == siphash13(msg@),
{
    let n = msg.len();
    let mut v = (0x736f6d6570736575u64, 0x646f72616e646f6du64, 0x6c7967656e657261u64, 0x7465646279746573u64);
    let mut i: usize = 0;
    proof {
        assert(msg@.take(0) =~= Seq::<u8>::empty());
        assert(sip_blocks(sip_init(), msg@.take(0)) == sip_init());
    }
    while n - i >= 8
        invariant
            i <= n,
            i % 8 == 0,
            n == msg@.len(),
            v == sip_blocks(sip_init(), msg@.take(i as int)),
        decreases n - i,
    {
        let m = le_word_x(msg, i, i + 8);
        proof {
            let done = msg@.take(i as int);
            let block = msg@.subrange(i as int, i + 8);
            assert(msg@.take(i + 8) =~= done + block);
            lemma_sip_blocks_append(sip_init(), done, block);
            assert(block.take(8) =~= block);
            assert(block.skip(8) =~= Seq::<u8>::empty());
            assert(sip_blocks(sip_absorb(v, le_word(block)), block.skip(8)) == sip_absorb(
                v,
                le_word(block),
            ));
        }
        v = sip_absorb_x(v, m);
        i = i + 8;
    }
    let tail = le_word_x(msg, i, n);
    let b = (((n % 256) as u64) << 56u64) | tail;
    proof {
        let whole = msg@;
        let done = msg@.take(i as int);
        let rest = msg@.skip(i as int);
        assert(whole =~= done + rest);
        lemma_sip_blocks_append(sip_init(), done, rest);
        assert(sip_blocks(v, rest) == v);
        assert(whole.skip(whole.len() - (whole.len() % 8)) =~= msg@.subrange(i as int, n as int));
    }
    let v = sip_absorb_x(v, b);
    let v = (v.0, v.1, v.2 ^ 0xff, v.3);
    let v = sip_round_x(sip_round_x(sip_round_x(v)));
    v.0 ^ v.1 ^ v.2 ^ v.3
}

// --- public identity operations ---

/// Compute the identifier of a (suite, case) pair given as plain strings.
pub fn case_id_from_names(suite: &str, case: &str) -> (r: u64)
    ensures
        r == case_id_of(suite@, case@),
{
    let mut bytes: Vec<u8> = suite.as_bytes_vec();
    bytes.push(0xff);
    let case_bytes: Vec<u8> = case.as_bytes_vec();
    let mut k: usize = 0;
    while k < case_bytes.len()
        invariant
            k <= case_bytes@.len(),
            case_bytes@ == encode_utf8(case@),
            bytes@ == encode_utf8(suite@) + seq![0xffu8] + case_bytes@.take(k as int),
        decreases case_bytes@.len() - k,
    {
        bytes.push(case_bytes[k]);
        proof {
            assert(case_bytes@.take(k + 1) =~= case_bytes@.take(k as int).push(case_bytes@[
                k as int]));
            assert(bytes@ =~= encode_utf8(suite@) + seq![0xffu8] + case_bytes@.take(k + 1));
        }
        k = k + 1;
    }
    bytes.push(0xff);
    proof {
        assert(case_bytes@.take(case_bytes@.len() as int) =~= case_bytes@);
        assert(bytes@ =~= id_stream(suite@, case@));
    }
    siphash13_x(&bytes)
}

/// Compute the identifier of a (suite, case) pair.
pub fn calculate_id(test_suite: &TestSuite, test_case: &TestCase) -> (r: FullyQualifiedTestCaseId)
    ensures
        r.0 == case_id_of(test_suite.0@, test_case.0@),
{
    FullyQualifiedTestCaseId(case_id_from_names(test_suite.0.as_str(), test_case.0.as_str()))
}

impl FullyQualifiedTestCase {
    /// A fully qualified test case is well formed when its identifier is the
    /// one its two names determine.
    pub open spec fn wf(&self) -> bool {
        self@.wf()
    }

    /// Pair a suite and a case with their computed identifier.
    pub fn new(test_suite: TestSuite, test_case: TestCase) -> (r: Self)
        ensures
            r.test_suite.0@ == test_suite.0@,
            r.test_case.0@ == test_case.0@,
            r.wf(),
    {
        let id = calculate_id(&test_suite, &test_case);
        Self { test_suite, test_case, id }
    }

    /// Build a fully qualified test case straight from the two names.
    pub fn from_test_suite_test_case(test_suite: String, test_case: String) -> (r: Self)
        ensures
            r.test_suite.0@ == test_suite@,
            r.test_case.0@ == test_case@,
            r.wf(),
    {
        Self::new(TestSuite(test_suite), TestCase(test_case))
    }

    /// Render the pair as `suite.case`.
    pub fn to_string(&self) -> (r: String)
        ensures
            r@ == self.test_suite.0@ + "."@ + self.test_case.0@,
    {
        let mut r = self.test_suite.0.clone();
        r.append(".");
        r.append(self.test_case.0.as_str());
        r
    }
}

impl PartialEq for FullyQualifiedTestCase {
    /// Two fully qualified test cases are equal exactly when their
    /// identifiers are: the identifier already encodes both names.
    fn eq(&self, other: &Self) -> (r: bool) {
        self.id.0 == other.id.0
    }
}

impl vstd::std_specs::cmp::PartialEqSpecImpl for FullyQualifiedTestCase {
    open spec fn obeys_eq_spec() -> bool {
        true
    }

    open spec fn eq_spec(&self, other: &FullyQualifiedTestCase) -> bool {
        self.id.0 == other.id.0
    }
}

/// Identifiers are deterministic: two well-formed fully qualified test cases
/// with the same suite name and the same case name carry the same identifier,
/// in whatever order and process the two were built.
pub proof fn lemma_identity_deterministic(a: FullyQualifiedTestCase, b: FullyQualifiedTestCase)
    requires
        a.wf(),
        b.wf(),
        a.test_suite.0@ == b.test_suite.0@,
        a.test_case.0@ == b.test_case.0@,
    ensures
        a.id == b.id,
{
}

/// The sixteen digits of `x` in base 16, upper case, most significant first.
pub open spec fn hex16(x: u64) -> Seq<char> {
    Seq::new(16, |i: int| hex_digit(((x >> ((60 - 4 * i) as u64)) & 0xf) as u64))
}

/// One upper-case hexadecimal digit.
pub open spec fn hex_digit(d: u64) -> char
    recommends
        d < 16,
{
    if d == 0 {
        '0'
    } else if d == 1 {
        '1'
    } else if d == 2 {
        '2'
    } else if d == 3 {
        '3'
    } else if d == 4 {
        '4'
    } else if d == 5 {
        '5'
    } else if d == 6 {
        '6'
    } else if d == 7 {
        '7'
    } else if d == 8 {
        '8'
    } else if d == 9 {
        '9'
    } else if d == 10 {
        'A'
    } else if d == 11 {
        'B'
    } else if d == 12 {
        'C'
    } else if d == 13 {
        'D'
    } else if d == 14 {
        'E'
    } else {
        'F'
    }
}

fn hex_digit_x(d: u64) -> (c: char)
    requires
        d < 16,
    ensures
        c == hex_digit(d),
{
    if d == 0 {
        '0'
    } else if d == 1 {
        '1'
    } else if d == 2 {
        '2'
    } else if d == 3 {
        '3'
    } else if d == 4 {
        '4'
    } else if d == 5 {
        '5'
    } else if d == 6 {
        '6'
    } else if d == 7 {
        '7'
    } else if d == 8 {
        '8'
    } else if d == 9 {
        '9'
    } else if d == 10 {
        'A'
    } else if d == 11 {
        'B'
    } else if d == 12 {
        'C'
    } else if d == 13 {
        'D'
    } else if d == 14 {
        'E'
    } else {
        'F'
    }
}

impl FullyQualifiedTestCaseId {
    /// Render the identifier as sixteen upper-case hexadecimal digits.
    pub fn to_string(&self) -> (r: String)
        ensures
            r@ == hex16(self.0),
    {
        let x = self.0;
        let mut r = String::new();
        let mut i: usize = 0;
        while i < 16
            invariant
                i <= 16,
                r@ == hex16(x).take(i as int),
            decreases 16 - i,
        {
            let sh: u64 = 60 - 4 * (i as u64);
            let d = (x >> sh) & 0xf;
            proof {
                assert((x >> sh) & 0xf < 16) by (bit_vector);
            }
            let c = hex_digit_x(d);
            push_char(&mut r, c);
            proof {
                assert(hex16(x).take(i + 1) =~= hex16(x).take(i as int).push(hex16(x)[i as int]));
            }
            i = i + 1;
        }
        proof {
            assert(hex16(x).take(16) =~= hex16(x));
        }
        r
    }
}

} // verus!
