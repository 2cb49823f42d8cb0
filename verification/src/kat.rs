//! Known-answer test of the HPKE suite. Every key and value here is a public fixture of RFC 9180
//! (appendix A.2.3: authenticated mode, X25519, HKDF-SHA256, ChaCha20Poly1305; its first three messages).
use crate::crypto::{hpke_message_opened, hpke_message_sealed, hpke_open_three, hpke_seal_three, Replay, MAX_INFO};
use crate::text::{extend, same_bytes};
use vstd::prelude::*;

verus! {

/// One message: what is sealed, and what sealing gives. `expected` is the ciphertext and its tag.
pub struct Case {
    pub plaintext: Vec<u8>,
    pub aad: Vec<u8>,
    pub expected: Vec<u8>,
}

/// A known answer: keys, and the messages of one context in their order.
pub struct Vector {
    pub info: Vec<u8>,
    pub ikm_e: [u8; 32],
    pub enc: [u8; 32],
    pub sk_s: [u8; 32],
    pub pk_s: [u8; 32],
    pub sk_r: [u8; 32],
    pub pk_r: [u8; 32],
    pub cases: [Case; 3],
}

impl Case {
    /// Whether the plaintext is short enough and the expected text as long as it must be.
    pub open spec fn fits(self) -> bool {
        self.plaintext@.len() <= 64 && self.expected@.len() == self.plaintext@.len() + 16
    }

    /// The expected ciphertext.
    pub open spec fn ciphertext(self) -> Seq<u8> {
        self.expected@.take(self.plaintext@.len() as int)
    }

    /// The expected tag.
    pub open spec fn tag(self) -> Seq<u8> {
        self.expected@.skip(self.plaintext@.len() as int)
    }

    fn check_size(&self) -> (result: bool)
        ensures
            result == self.fits(),
    {
        self.plaintext.len() <= 64 && self.expected.len() == self.plaintext.len() + 16
    }

    /// The expected ciphertext and its tag.
    fn parts(&self) -> (parts: (Vec<u8>, [u8; 16]))
        requires
            self.fits(),
        ensures
            parts.0@ == self.ciphertext(),
            parts.1@ == self.tag(),
    {
        let n: usize = self.plaintext.len();
        let ciphertext = copied(vstd::slice::slice_subrange(self.expected.as_slice(), 0, n));
        let mut tag: [u8; 16] = [0; 16];
        let mut i: usize = 0;
        while i < 16
            invariant
                i <= 16,
                n == self.plaintext@.len(),
                self.expected@.len() == n + 16,
                n <= 64,
                tag@.len() == 16,
                forall|j: int| 0 <= j < i ==> tag@[j] == self.expected@[n + j],
            decreases 16 - i,
        {
            tag[i] = self.expected[n + i];
            i += 1;
        }
        assert(ciphertext@ =~= self.ciphertext());
        assert(tag@ =~= self.tag());
        (ciphertext, tag)
    }
}

/// A copy of some bytes.
fn copied(bytes: &[u8]) -> (copy: Vec<u8>)
    ensures
        copy@ == bytes@,
{
    let mut copy: Vec<u8> = Vec::new();
    extend(&mut copy, bytes);
    assert(copy@ =~= bytes@);
    copy
}

impl Vector {
    /// Whether message `i` is sealed to what is expected, and opens to its plaintext.
    pub open spec fn agrees_on(self, i: int) -> bool {
        let case = self.cases@[i];
        &&& case.fits()
        &&& hpke_message_sealed(
            self.sk_s@,
            self.pk_s@,
            self.pk_r@,
            self.info@,
            self.ikm_e@,
            i as nat,
            case.aad@,
            case.plaintext@,
        ) == Some((self.enc@, case.ciphertext(), case.tag()))
        &&& hpke_message_opened(self.sk_r@, self.pk_s@, self.enc@, self.info@, i as nat, case.aad@, case.ciphertext(), case.tag())
            == Some(case.plaintext@)
    }

    /// Whether the suite gives the known answers in both directions.
    pub open spec fn agrees(self) -> bool {
        self.agrees_on(0) && self.agrees_on(1) && self.agrees_on(2)
    }

    /// The fixture of the standard.
    pub open spec fn is_official(self) -> bool {
        &&& self.info@ == seq![
            0x4fu8, 0x64, 0x65, 0x20, 0x6f, 0x6e, 0x20, 0x61, 0x20, 0x47, 0x72, 0x65, 0x63, 0x69, 0x61, 0x6e,
            0x20, 0x55, 0x72, 0x6e,
        ]
        &&& self.ikm_e@ == seq![
            0x93u8, 0x8d, 0x3d, 0xaa, 0x5a, 0x89, 0x04, 0x54, 0x0b, 0xc2, 0x4f, 0x48, 0xae, 0x90, 0xee, 0xd3,
            0xf4, 0xf7, 0xf1, 0x18, 0x39, 0x56, 0x05, 0x97, 0xb5, 0x5e, 0x7c, 0x95, 0x98, 0xc9, 0x96, 0xc0,
        ]
        &&& self.enc@ == seq![
            0xf7u8, 0x67, 0x4c, 0xc8, 0xcd, 0x7b, 0xaa, 0x58, 0x72, 0xd1, 0xf3, 0x3d, 0xba, 0xff, 0xe3, 0x31,
            0x42, 0x39, 0xf6, 0x19, 0x7d, 0xdf, 0x5d, 0xed, 0x17, 0x46, 0x76, 0x0b, 0xfc, 0x84, 0x7e, 0x0e,
        ]
        &&& self.sk_s@ == seq![
            0x2du8, 0xef, 0x0c, 0xb5, 0x8f, 0xfc, 0xf8, 0x3d, 0x10, 0x62, 0xdd, 0x08, 0x5c, 0x8a, 0xce, 0xca,
            0x7f, 0x4c, 0x0c, 0x3f, 0xd0, 0x59, 0x12, 0xd8, 0x47, 0xb6, 0x1f, 0x3e, 0x54, 0x12, 0x1f, 0x05,
        ]
        &&& self.pk_s@ == seq![
            0xf0u8, 0xf4, 0xf9, 0xe9, 0x6c, 0x54, 0xae, 0xed, 0x3f, 0x32, 0x3d, 0xe8, 0x53, 0x4f, 0xff, 0xd7,
            0xe0, 0x57, 0x7e, 0x4c, 0xe2, 0x69, 0x89, 0x67, 0x16, 0xbc, 0xb9, 0x56, 0x43, 0xc8, 0x71, 0x2b,
        ]
        &&& self.sk_r@ == seq![
            0x3cu8, 0xa2, 0x2a, 0x6d, 0x1c, 0xda, 0x1b, 0xb9, 0x48, 0x09, 0x49, 0xec, 0x53, 0x29, 0xd3, 0xbf,
            0x0b, 0x08, 0x0c, 0xa4, 0xc4, 0x58, 0x79, 0xc9, 0x5e, 0xdd, 0xb5, 0x5c, 0x70, 0xb8, 0x0b, 0x82,
        ]
        &&& self.pk_r@ == seq![
            0x1au8, 0x47, 0x87, 0x16, 0xd6, 0x3c, 0xb2, 0xe1, 0x67, 0x86, 0xee, 0x93, 0x00, 0x44, 0x86, 0xdc,
            0x15, 0x1e, 0x98, 0x8b, 0x34, 0xb4, 0x75, 0x04, 0x3d, 0x3e, 0x01, 0x75, 0xbd, 0xb0, 0x1c, 0x44,
        ]
        &&& forall|i: int| 0 <= i < 3 ==> (#[trigger] self.cases@[i]).plaintext@ == seq![
            0x42u8, 0x65, 0x61, 0x75, 0x74, 0x79, 0x20, 0x69, 0x73, 0x20, 0x74, 0x72, 0x75, 0x74, 0x68, 0x2c,
            0x20, 0x74, 0x72, 0x75, 0x74, 0x68, 0x20, 0x62, 0x65, 0x61, 0x75, 0x74, 0x79,
        ]
        &&& self.cases@[0].aad@ == seq![
            0x43u8, 0x6f, 0x75, 0x6e, 0x74, 0x2d, 0x30,
        ]
        &&& self.cases@[0].expected@ == seq![
            0xabu8, 0x1a, 0x13, 0xc9, 0xd4, 0xf0, 0x1a, 0x87, 0xec, 0x34, 0x40, 0xdb, 0xd7, 0x56, 0xe2, 0x67,
            0x7b, 0xd2, 0xec, 0xf9, 0xdf, 0x0c, 0xe7, 0xed, 0x73, 0x86, 0x9b, 0x98, 0xe0, 0x0c, 0x09, 0xbe,
            0x11, 0x1c, 0xb9, 0xfd, 0xf0, 0x77, 0x34, 0x7a, 0xeb, 0x88, 0xe6, 0x1b, 0xdf,
        ]
        &&& self.cases@[1].aad@ == seq![
            0x43u8, 0x6f, 0x75, 0x6e, 0x74, 0x2d, 0x31,
        ]
        &&& self.cases@[1].expected@ == seq![
            0x32u8, 0x65, 0xc7, 0x80, 0x7f, 0xff, 0xf7, 0xfd, 0xac, 0xe2, 0x16, 0x59, 0xa2, 0xc6, 0xcc, 0xff,
            0xee, 0x52, 0xa2, 0x6d, 0x27, 0x0c, 0x76, 0x46, 0x8e, 0xd7, 0x42, 0x02, 0xa6, 0x54, 0x78, 0xbf,
            0xae, 0xdf, 0xff, 0x9c, 0x2b, 0x76, 0x34, 0xe2, 0x4f, 0x10, 0xb7, 0x10, 0x16,
        ]
        &&& self.cases@[2].aad@ == seq![
            0x43u8, 0x6f, 0x75, 0x6e, 0x74, 0x2d, 0x32,
        ]
        &&& self.cases@[2].expected@ == seq![
            0x3au8, 0xad, 0xee, 0x86, 0xad, 0x2a, 0x05, 0x08, 0x1e, 0xa8, 0x60, 0x03, 0x3a, 0x9d, 0x09, 0xdb,
            0xcc, 0xb4, 0xac, 0xac, 0x2d, 0xed, 0x08, 0x91, 0xda, 0x40, 0xf5, 0x1d, 0x4d, 0xf1, 0x99, 0x25,
            0xf7, 0xa7, 0x67, 0xb0, 0x76, 0xa5, 0xcb, 0xc9, 0x35, 0x5c, 0x8f, 0xd3, 0x5e,
        ]
    }

    /// The fixture of the standard.
    pub fn official() -> (vector: Self)
        ensures
            vector.is_official(),
    {
        Vector {
            info: vec![
                0x4f, 0x64, 0x65, 0x20, 0x6f, 0x6e, 0x20, 0x61, 0x20, 0x47, 0x72, 0x65, 0x63, 0x69, 0x61, 0x6e,
                0x20, 0x55, 0x72, 0x6e,
            ],
            ikm_e: [
                0x93, 0x8d, 0x3d, 0xaa, 0x5a, 0x89, 0x04, 0x54, 0x0b, 0xc2, 0x4f, 0x48, 0xae, 0x90, 0xee, 0xd3,
                0xf4, 0xf7, 0xf1, 0x18, 0x39, 0x56, 0x05, 0x97, 0xb5, 0x5e, 0x7c, 0x95, 0x98, 0xc9, 0x96, 0xc0,
            ],
            enc: [
                0xf7, 0x67, 0x4c, 0xc8, 0xcd, 0x7b, 0xaa, 0x58, 0x72, 0xd1, 0xf3, 0x3d, 0xba, 0xff, 0xe3, 0x31,
                0x42, 0x39, 0xf6, 0x19, 0x7d, 0xdf, 0x5d, 0xed, 0x17, 0x46, 0x76, 0x0b, 0xfc, 0x84, 0x7e, 0x0e,
            ],
            sk_s: [
                0x2d, 0xef, 0x0c, 0xb5, 0x8f, 0xfc, 0xf8, 0x3d, 0x10, 0x62, 0xdd, 0x08, 0x5c, 0x8a, 0xce, 0xca,
                0x7f, 0x4c, 0x0c, 0x3f, 0xd0, 0x59, 0x12, 0xd8, 0x47, 0xb6, 0x1f, 0x3e, 0x54, 0x12, 0x1f, 0x05,
            ],
            pk_s: [
                0xf0, 0xf4, 0xf9, 0xe9, 0x6c, 0x54, 0xae, 0xed, 0x3f, 0x32, 0x3d, 0xe8, 0x53, 0x4f, 0xff, 0xd7,
                0xe0, 0x57, 0x7e, 0x4c, 0xe2, 0x69, 0x89, 0x67, 0x16, 0xbc, 0xb9, 0x56, 0x43, 0xc8, 0x71, 0x2b,
            ],
            sk_r: [
                0x3c, 0xa2, 0x2a, 0x6d, 0x1c, 0xda, 0x1b, 0xb9, 0x48, 0x09, 0x49, 0xec, 0x53, 0x29, 0xd3, 0xbf,
                0x0b, 0x08, 0x0c, 0xa4, 0xc4, 0x58, 0x79, 0xc9, 0x5e, 0xdd, 0xb5, 0x5c, 0x70, 0xb8, 0x0b, 0x82,
            ],
            pk_r: [
                0x1a, 0x47, 0x87, 0x16, 0xd6, 0x3c, 0xb2, 0xe1, 0x67, 0x86, 0xee, 0x93, 0x00, 0x44, 0x86, 0xdc,
                0x15, 0x1e, 0x98, 0x8b, 0x34, 0xb4, 0x75, 0x04, 0x3d, 0x3e, 0x01, 0x75, 0xbd, 0xb0, 0x1c, 0x44,
            ],
            cases: [
                Case {
                    plaintext: vec![
                        0x42, 0x65, 0x61, 0x75, 0x74, 0x79, 0x20, 0x69, 0x73, 0x20, 0x74, 0x72, 0x75, 0x74, 0x68, 0x2c,
                        0x20, 0x74, 0x72, 0x75, 0x74, 0x68, 0x20, 0x62, 0x65, 0x61, 0x75, 0x74, 0x79,
                    ],
                    aad: vec![
                        0x43, 0x6f, 0x75, 0x6e, 0x74, 0x2d, 0x30,
                    ],
                    expected: vec![
                        0xab, 0x1a, 0x13, 0xc9, 0xd4, 0xf0, 0x1a, 0x87, 0xec, 0x34, 0x40, 0xdb, 0xd7, 0x56, 0xe2, 0x67,
                        0x7b, 0xd2, 0xec, 0xf9, 0xdf, 0x0c, 0xe7, 0xed, 0x73, 0x86, 0x9b, 0x98, 0xe0, 0x0c, 0x09, 0xbe,
                        0x11, 0x1c, 0xb9, 0xfd, 0xf0, 0x77, 0x34, 0x7a, 0xeb, 0x88, 0xe6, 0x1b, 0xdf,
                    ],
                },
                Case {
                    plaintext: vec![
                        0x42, 0x65, 0x61, 0x75, 0x74, 0x79, 0x20, 0x69, 0x73, 0x20, 0x74, 0x72, 0x75, 0x74, 0x68, 0x2c,
                        0x20, 0x74, 0x72, 0x75, 0x74, 0x68, 0x20, 0x62, 0x65, 0x61, 0x75, 0x74, 0x79,
                    ],
                    aad: vec![
                        0x43, 0x6f, 0x75, 0x6e, 0x74, 0x2d, 0x31,
                    ],
                    expected: vec![
                        0x32, 0x65, 0xc7, 0x80, 0x7f, 0xff, 0xf7, 0xfd, 0xac, 0xe2, 0x16, 0x59, 0xa2, 0xc6, 0xcc, 0xff,
                        0xee, 0x52, 0xa2, 0x6d, 0x27, 0x0c, 0x76, 0x46, 0x8e, 0xd7, 0x42, 0x02, 0xa6, 0x54, 0x78, 0xbf,
                        0xae, 0xdf, 0xff, 0x9c, 0x2b, 0x76, 0x34, 0xe2, 0x4f, 0x10, 0xb7, 0x10, 0x16,
                    ],
                },
                Case {
                    plaintext: vec![
                        0x42, 0x65, 0x61, 0x75, 0x74, 0x79, 0x20, 0x69, 0x73, 0x20, 0x74, 0x72, 0x75, 0x74, 0x68, 0x2c,
                        0x20, 0x74, 0x72, 0x75, 0x74, 0x68, 0x20, 0x62, 0x65, 0x61, 0x75, 0x74, 0x79,
                    ],
                    aad: vec![
                        0x43, 0x6f, 0x75, 0x6e, 0x74, 0x2d, 0x32,
                    ],
                    expected: vec![
                        0x3a, 0xad, 0xee, 0x86, 0xad, 0x2a, 0x05, 0x08, 0x1e, 0xa8, 0x60, 0x03, 0x3a, 0x9d, 0x09, 0xdb,
                        0xcc, 0xb4, 0xac, 0xac, 0x2d, 0xed, 0x08, 0x91, 0xda, 0x40, 0xf5, 0x1d, 0x4d, 0xf1, 0x99, 0x25,
                        0xf7, 0xa7, 0x67, 0xb0, 0x76, 0xa5, 0xcb, 0xc9, 0x35, 0x5c, 0x8f, 0xd3, 0x5e,
                    ],
                },
            ],
        }
    }

    /// Seals the plaintexts in one context and opens the expected ciphertexts in another, and compares both.
    pub fn check(&self) -> (result: bool)
        requires
            self.info@.len() < MAX_INFO,
        ensures
            result == self.agrees(),
    {
        let cases = &self.cases;
        if !cases[0].check_size() || !cases[1].check_size() || !cases[2].check_size() {
            return false;
        }
        let (c0, t0) = cases[0].parts();
        let (c1, t1) = cases[1].parts();
        let (c2, t2) = cases[2].parts();
        let mut rng = Replay::new(copied(&self.ikm_e));
        assert(rng.next32() =~= self.ikm_e@);
        let aads: [&[u8]; 3] = [cases[0].aad.as_slice(), cases[1].aad.as_slice(), cases[2].aad.as_slice()];
        let texts: [Vec<u8>; 3] = [copied(&cases[0].plaintext), copied(&cases[1].plaintext), copied(&cases[2].plaintext)];
        let ghost plain = texts@;
        assert(forall|i: int| 0 <= i < 3 ==> (#[trigger] aads@[i])@ == cases@[i].aad@ && plain[i]@ == cases@[i].plaintext@);
        match hpke_seal_three((&self.sk_s, &self.pk_s), &self.pk_r, &self.info, &mut rng, aads, texts) {
            Ok((enc, sealed, tags)) => {
                let ghost sealings = |i: int|
                    hpke_message_sealed(self.sk_s@, self.pk_s@, self.pk_r@, self.info@, self.ikm_e@, i as nat, aads@[i]@, plain[i]@);
                assert(sealings(0) == Some((enc@, sealed@[0]@, tags@[0]@)));
                assert(sealings(1) == Some((enc@, sealed@[1]@, tags@[1]@)));
                assert(sealings(2) == Some((enc@, sealed@[2]@, tags@[2]@)));
                if !same_bytes(&enc, &self.enc) || rng.offset != 32 || !same_bytes(&sealed[0], &c0) || !same_bytes(&tags[0], &t0)
                    || !same_bytes(&sealed[1], &c1) || !same_bytes(&tags[1], &t1) || !same_bytes(&sealed[2], &c2)
                    || !same_bytes(&tags[2], &t2) {
                    return false;
                }
            },
            Err(_) => return false,
        }
        let texts: [Vec<u8>; 3] = [c0, c1, c2];
        let tags: [&[u8; 16]; 3] = [&t0, &t1, &t2];
        let ghost sealed = texts@;
        assert(forall|i: int| 0 <= i < 3 ==> (#[trigger] sealed[i])@ == cases@[i].ciphertext() && tags@[i]@ == cases@[i].tag());
        match hpke_open_three(&self.sk_r, &self.pk_s, &self.enc, &self.info, aads, texts, tags) {
            Ok(opened) => {
                let ghost openings = |i: int|
                    hpke_message_opened(self.sk_r@, self.pk_s@, self.enc@, self.info@, i as nat, aads@[i]@, sealed[i]@, tags@[i]@);
                assert(openings(0) == Some(opened@[0]@));
                assert(openings(1) == Some(opened@[1]@));
                assert(openings(2) == Some(opened@[2]@));
                same_bytes(&opened[0], &cases[0].plaintext) && same_bytes(&opened[1], &cases[1].plaintext) && same_bytes(
                    &opened[2],
                    &cases[2].plaintext,
                )
            },
            Err(_) => false,
        }
    }
}

/// Whether the suite gives the known answers of the standard.
pub fn run() -> (result: bool)
    ensures
        exists|vector: Vector| vector.is_official() && result == #[trigger] vector.agrees(),
{
    let vector = Vector::official();
    let result = vector.check();
    assert(vector.is_official() && result == vector.agrees());
    result
}

/// A vector agrees only where each of its three messages is sealed to its expected text under its own place
/// in the order, and opens to its plaintext again.
pub proof fn known_answers_are_checked_both_ways(vector: Vector, i: int)
    requires
        vector.agrees(),
        0 <= i < 3,
    ensures
        vector.cases@[i].plaintext@.len() <= 64,
        vector.cases@[i].expected@.len() == vector.cases@[i].plaintext@.len() + 16,
        hpke_message_sealed(
            vector.sk_s@,
            vector.pk_s@,
            vector.pk_r@,
            vector.info@,
            vector.ikm_e@,
            i as nat,
            vector.cases@[i].aad@,
            vector.cases@[i].plaintext@,
        ) matches Some((enc, ciphertext, tag)) && enc == vector.enc@ && ciphertext + tag == vector.cases@[i].expected@,
        exists|ciphertext: Seq<u8>, tag: Seq<u8>|
            ciphertext + tag == vector.cases@[i].expected@ && tag.len() == 16 && #[trigger] hpke_message_opened(
                vector.sk_r@,
                vector.pk_s@,
                vector.enc@,
                vector.info@,
                i as nat,
                vector.cases@[i].aad@,
                ciphertext,
                tag,
            ) == Some(vector.cases@[i].plaintext@),
{
    assert(vector.agrees_on(i));
    let case = vector.cases@[i];
    assert(case.ciphertext() + case.tag() =~= case.expected@);
    assert(hpke_message_opened(
        vector.sk_r@,
        vector.pk_s@,
        vector.enc@,
        vector.info@,
        i as nat,
        case.aad@,
        case.ciphertext(),
        case.tag(),
    ) == Some(case.plaintext@));
}

} // verus!
