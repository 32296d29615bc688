//! Installs a mod-loader distribution into a game directory: parses installer
//! manifests, resolves library artifacts by digest, and drives a template-based
//! post-processor pipeline.
use vstd::prelude::*;

pub mod dict;
pub mod download_utils;
pub mod forge_client_install;
pub mod forge_installer_profile;
pub mod post_processors;
pub mod strutil;

verus! {

use crate::strutil::{spec_split, spec_join, split_on, join_with, find_char};

/// The ghost shape of an [`Artifact`]: each text field as a character sequence.
pub ghost struct ArtifactView {
    pub original_descriptor: Option<Seq<char>>,
    pub group_id: Seq<Seq<char>>,
    pub artifact_id: Seq<char>,
    pub version: Seq<char>,
    pub classifier: Option<Seq<char>>,
    pub ext: Seq<char>,
}

/// A maven-style artifact coordinate `group.id:artifact:version[:classifier][@ext]`
/// with deterministic relative-path derivation.
pub struct Artifact {
    original_descriptor: Option<String>,
    pub group_id: Vec<String>,
    pub artifact_id: String,
    pub version: String,
    pub classifier: Option<String>,
    pub ext: String,
}

/// The error of [`Artifact::parse`]: fewer than three colon-separated segments.
#[derive(Debug)]
pub struct InvalidCoordinate;

/// The filename an [`ArtifactView`] derives: `artifact-version[-classifier].ext`.
pub open spec fn spec_file_name(a: ArtifactView) -> Seq<char> {
    a.artifact_id + seq!['-'] + a.version + (match a.classifier {
        Some(c) => seq!['-'] + c,
        None => Seq::<char>::empty(),
    }) + seq!['.'] + a.ext
}

/// The relative path segments: group segments, artifact, version, filename.
pub open spec fn spec_path_vec(a: ArtifactView) -> Seq<Seq<char>> {
    a.group_id + seq![a.artifact_id, a.version, spec_file_name(a)]
}

/// The relative path as one `/`-separated string.
pub open spec fn spec_path_string(a: ArtifactView) -> Seq<char> {
    spec_join(spec_path_vec(a), '/')
}

/// The canonical descriptor text; a parsed artifact echoes its original text.
pub open spec fn spec_descriptor(a: ArtifactView) -> Seq<char> {
    match a.original_descriptor {
        Some(d) => d,
        None => spec_join(a.group_id, '.') + seq![':'] + a.artifact_id + seq![':'] + a.version
            + (match a.classifier {
            Some(c) => seq![':'] + c,
            None => Seq::<char>::empty(),
        }),
    }
}

/// What parsing `text` yields when it is parseable: the pre-`@` part is split
/// on `:`, the extension defaults to `jar`, and the pre-`@` text itself is
/// retained as the original descriptor.
pub open spec fn spec_parse(text: Seq<char>) -> ArtifactView {
    let pre = if text.contains('@') {
        text.subrange(0, text.index_of_first('@')->Some_0)
    } else {
        text
    };
    let ext = if text.contains('@') {
        text.subrange(text.index_of_first('@')->Some_0 + 1, text.len() as int)
    } else {
        seq!['j', 'a', 'r']
    };
    let parts = spec_split(pre, ':');
    ArtifactView {
        original_descriptor: Some(pre),
        group_id: spec_split(parts[0], '.'),
        artifact_id: parts[1],
        version: parts[2],
        classifier: if parts.len() > 3 {
            Some(parts[3])
        } else {
            None::<Seq<char>>
        },
        ext: ext,
    }
}

/// That `a` is exactly what a successful parse of `text` yields.
pub open spec fn spec_parse_ok(text: Seq<char>, a: ArtifactView) -> bool {
    spec_parseable(text) && a == spec_parse(text)
}

/// Whether the pre-`@` part of `text` has at least three colon-separated segments.
pub open spec fn spec_parseable(text: Seq<char>) -> bool {
    let pre = if text.contains('@') {
        text.subrange(0, text.index_of_first('@')->Some_0)
    } else {
        text
    };
    spec_split(pre, ':').len() >= 3
}

impl View for Artifact {
    type V = ArtifactView;

    closed spec fn view(&self) -> ArtifactView {
        ArtifactView {
            original_descriptor: match self.original_descriptor {
                Some(d) => Some(d@),
                None => None,
            },
            group_id: self.group_id.deep_view(),
            artifact_id: self.artifact_id@,
            version: self.version@,
            classifier: match self.classifier {
                Some(c) => Some(c@),
                None => None,
            },
            ext: self.ext@,
        }
    }
}

impl DeepView for Artifact {
    type V = ArtifactView;

    open spec fn deep_view(&self) -> ArtifactView {
        self.view()
    }
}

impl Clone for Artifact {
    fn clone(&self) -> (r: Self)
        ensures
            r@ == self@,
    {
        let r = Artifact {
            original_descriptor: match &self.original_descriptor {
                Some(d) => Some(d.clone()),
                None => None,
            },
            group_id: self.group_id.clone(),
            artifact_id: self.artifact_id.clone(),
            version: self.version.clone(),
            classifier: match &self.classifier {
                Some(c) => Some(c.clone()),
                None => None,
            },
            ext: self.ext.clone(),
        };
        proof {
            assert(r.group_id.deep_view() =~= self.group_id.deep_view());
        }
        r
    }
}

impl Artifact {
    /// Parses a descriptor `group.id:artifact:version[:classifier][@ext]`;
    /// fails when fewer than three colon-separated segments are present.
    pub fn parse(text: &str) -> (r: Result<Artifact, InvalidCoordinate>)
        ensures
            r is Ok <==> spec_parseable(text@),
            r matches Ok(a) ==> spec_parse_ok(text@, a@),
    {
        let ghost spec_pre = if text@.contains('@') {
            text@.subrange(0, text@.index_of_first('@')->Some_0)
        } else {
            text@
        };
        let ghost spec_ext = if text@.contains('@') {
            text@.subrange(text@.index_of_first('@')->Some_0 + 1, text@.len() as int)
        } else {
            seq!['j', 'a', 'r']
        };
        let (pre, ext): (String, String) = match find_char(text, '@') {
            Some(i) => {
                proof {
                    text@.index_of_first_ensures('@');
                    assert(text@.index_of_first('@') == Some(i as int));
                }
                let n = text.unicode_len();
                let p = text.substring_char(0, i);
                let e = text.substring_char(i + 1, n);
                (p.to_owned(), e.to_owned())
            },
            None => {
                proof {
                    text@.index_of_first_ensures('@');
                }
                (text.to_owned(), String::from_str("jar"))
            },
        };
        proof {
            reveal_strlit("jar");
            assert(pre@ == spec_pre);
            assert(ext@ =~= spec_ext);
        }
        let parts = split_on(pre.as_str(), ':');
        proof {
            assert(parts.deep_view() == spec_split(spec_pre, ':'));
        }
        if parts.len() < 3 {
            return Err(InvalidCoordinate);
        }
        let group_id = split_on(parts[0].as_str(), '.');
        proof {
            assert(parts@[0]@ == parts.deep_view()[0]);
        }
        let artifact_id = parts[1].clone();
        let version = parts[2].clone();
        let classifier: Option<String> = if parts.len() > 3 {
            Some(parts[3].clone())
        } else {
            None
        };
        let a = Artifact {
            original_descriptor: Some(pre),
            group_id,
            artifact_id,
            version,
            classifier,
            ext,
        };
        proof {
            assert(a@.group_id == spec_split(spec_split(spec_pre, ':')[0], '.'));
            assert(a@.artifact_id == spec_split(spec_pre, ':')[1]);
            assert(a@.version == spec_split(spec_pre, ':')[2]);
            assert(a@.original_descriptor == spec_parse(text@).original_descriptor);
            assert(a@.classifier == spec_parse(text@).classifier);
            assert(a@.ext == spec_parse(text@).ext);
            assert(a@ == spec_parse(text@));
        }
        Ok(a)
    }

    /// The filename of the artifact: `artifact-version[-classifier].ext`.
    pub fn get_file(&self) -> (r: String)
        ensures
            r@ == spec_file_name(self@),
    {
        let mut name = self.artifact_id.clone();
        name.append("-");
        name.append(self.version.as_str());
        if let Some(classifier) = &self.classifier {
            name.append("-");
            name.append(classifier.as_str());
        }
        name.append(".");
        name.append(self.ext.as_str());
        proof {
            reveal_strlit("-");
            reveal_strlit(".");
            assert(name@ =~= spec_file_name(self@));
        }
        name
    }

    /// The relative path segments: group segments, artifact id, version, filename.
    pub fn get_path_vec(&self) -> (r: Vec<String>)
        ensures
            r.deep_view() == spec_path_vec(self@),
    {
        let mut vec = self.group_id.clone();
        proof {
            assert(vec.deep_view() =~= self.group_id.deep_view());
        }
        vec.push(self.artifact_id.clone());
        vec.push(self.version.clone());
        vec.push(self.get_file());
        proof {
            assert(vec.deep_view() =~= spec_path_vec(self@));
        }
        vec
    }

    /// The relative path as one `/`-separated string.
    pub fn get_path_string(&self) -> (r: String)
        ensures
            r@ == spec_path_string(self@),
    {
        let parts = self.get_path_vec();
        join_with(&parts, '/')
    }

    /// The absolute location under `root`: `root/` followed by the relative path.
    pub fn get_local_path(&self, root: &str) -> (r: String)
        ensures
            r@ == root@ + seq!['/'] + spec_path_string(self@),
    {
        let mut out = root.to_owned();
        out.append("/");
        let path = self.get_path_string();
        out.append(path.as_str());
        proof {
            reveal_strlit("/");
            assert(out@ =~= root@ + seq!['/'] + spec_path_string(self@));
        }
        out
    }

    /// The descriptor text: the original parsed text when there is one, else
    /// the canonical `group.id:artifact:version[:classifier]` form.
    pub fn get_descriptor(&self) -> (r: String)
        ensures
            r@ == spec_descriptor(self@),
    {
        if let Some(original_descriptor) = &self.original_descriptor {
            original_descriptor.clone()
        } else {
            let group = join_with(&self.group_id, '.');
            let mut descriptor = group;
            descriptor.append(":");
            descriptor.append(self.artifact_id.as_str());
            descriptor.append(":");
            descriptor.append(self.version.as_str());
            if let Some(classifier) = &self.classifier {
                descriptor.append(":");
                descriptor.append(classifier.as_str());
            }
            proof {
                reveal_strlit(":");
                assert(descriptor@ =~= spec_descriptor(self@));
            }
            descriptor
        }
    }
}

/// A parsed coordinate echoes its input: for any descriptor text without an
/// `@` extension marker that parses, the descriptor of the parsed artifact is
/// the input text itself.
pub proof fn lemma_descriptor_round_trip(text: Seq<char>, a: ArtifactView)
    requires
        spec_parse_ok(text, a),
        !text.contains('@'),
    ensures
        spec_descriptor(a) == text,
{
}

/// A 20-byte SHA-1 content checksum, convertible to and from 40 lowercase hex
/// digits; equality is byte-exact.
pub struct Sha1Sum {
    bytes: Vec<u8>,
}

/// The error of [`Sha1Sum::from_hex`]: text that is not exactly 40 hex digits.
#[derive(Debug)]
pub struct MalformedDigest;

/// The value of one hex digit, upper or lower case.
pub open spec fn spec_hex_val(c: char) -> Option<u8> {
    if 48 <= c as u32 <= 57 {
        Some((c as u32 - 48) as u8)
    } else if 97 <= c as u32 <= 102 {
        Some((c as u32 - 87) as u8)
    } else if 65 <= c as u32 <= 70 {
        Some((c as u32 - 55) as u8)
    } else {
        None
    }
}

/// The lowercase hex digit of a value below 16.
pub open spec fn spec_hex_char(v: u8) -> char {
    if v < 10 {
        (v + 48) as char
    } else {
        (v + 87) as char
    }
}

/// The lowercase hex text of a byte sequence: two digits per byte.
pub open spec fn spec_to_hex(bytes: Seq<u8>) -> Seq<char> {
    Seq::new(
        bytes.len() * 2,
        |i: int|
            if i % 2 == 0 {
                spec_hex_char(bytes[i / 2] / 16)
            } else {
                spec_hex_char(bytes[i / 2] % 16)
            },
    )
}

/// Whether every character of `s` is a hex digit.
pub open spec fn spec_all_hex(s: Seq<char>) -> bool {
    forall|i: int| 0 <= i < s.len() ==> spec_hex_val(#[trigger] s[i]) is Some
}

/// The bytes a hex text of even length denotes, given every character is a digit.
pub open spec fn spec_from_hex(s: Seq<char>) -> Seq<u8> {
    Seq::new(
        s.len() / 2,
        |i: int| (spec_hex_val(s[2 * i])->Some_0 * 16 + spec_hex_val(s[2 * i + 1])->Some_0) as u8,
    )
}

/// Decoding undoes encoding: the hex text of any byte sequence is all digits
/// and denotes the bytes themselves.
pub proof fn lemma_hex_round_trip(bytes: Seq<u8>)
    ensures
        spec_to_hex(bytes).len() == bytes.len() * 2,
        spec_all_hex(spec_to_hex(bytes)),
        spec_from_hex(spec_to_hex(bytes)) == bytes,
{
    let s = spec_to_hex(bytes);
    assert forall|i: int| 0 <= i < s.len() implies spec_hex_val(#[trigger] s[i]) is Some by {
        if i % 2 == 0 {
            assert(bytes[i / 2] / 16 < 16);
        } else {
            assert(bytes[i / 2] % 16 < 16);
        }
    }
    assert forall|i: int| 0 <= i < bytes.len() implies spec_from_hex(s)[i] == bytes[i] by {
        assert((2 * i) % 2 == 0 && (2 * i) / 2 == i);
        assert((2 * i + 1) % 2 == 1 && (2 * i + 1) / 2 == i);
        assert(spec_hex_val(spec_hex_char(bytes[i] / 16)) == Some((bytes[i] / 16) as u8));
        assert(spec_hex_val(spec_hex_char(bytes[i] % 16)) == Some((bytes[i] % 16) as u8));
        assert(bytes[i] / 16 * 16 + bytes[i] % 16 == bytes[i]) by {
            vstd::arithmetic::div_mod::lemma_fundamental_div_mod(bytes[i] as int, 16);
        }
    }
    assert(spec_from_hex(s) =~= bytes);
}

/// The SHA-1 hash of a byte sequence, named but not written out here: the
/// digest is a function of the input bytes alone, computed by the sha1 crate.
pub uninterp spec fn sha1_of(bytes: Seq<u8>) -> Seq<u8>;

impl View for Sha1Sum {
    type V = Seq<u8>;

    closed spec fn view(&self) -> Seq<u8> {
        self.bytes@
    }
}

impl DeepView for Sha1Sum {
    type V = Seq<u8>;

    open spec fn deep_view(&self) -> Seq<u8> {
        self.view()
    }
}

impl Clone for Sha1Sum {
    fn clone(&self) -> (r: Self)
        ensures
            r@ == self@,
    {
        Sha1Sum { bytes: self.bytes.clone() }
    }
}

impl Sha1Sum {
    /// Every checksum holds exactly 20 bytes.
    pub open spec fn wf(&self) -> bool {
        self@.len() == 20
    }

    /// Wraps a fixed 20-byte value.
    pub fn new(value: [u8; 20]) -> (r: Self)
        ensures
            r@ == value@,
            r.wf(),
    {
        let mut bytes: Vec<u8> = Vec::new();
        let mut i: usize = 0;
        while i < 20
            invariant
                i <= 20,
                bytes@ =~= value@.subrange(0, i as int),
            decreases 20 - i,
        {
            bytes.push(value[i]);
            proof {
                assert(bytes@ =~= value@.subrange(0, (i + 1) as int));
            }
            i = i + 1;
        }
        proof {
            assert(value@.subrange(0, 20) =~= value@);
        }
        Sha1Sum { bytes }
    }

    /// Hashes a byte buffer.
    ///
    /// Relies on sha1::Sha1::digest: the 20-byte SHA-1 hash of the input.
    #[verifier::external_body]
    pub fn from_bytes(value: &[u8]) -> (r: Self)
        ensures
            r@ == sha1_of(value@),
            r@.len() == 20,
    {
        let out = <sha1::Sha1 as sha1::Digest>::digest(value);
        Sha1Sum { bytes: out.to_vec() }
    }

    /// Decodes 40 hex digits; any other text is malformed.
    pub fn from_hex(text: &str) -> (r: Result<Self, MalformedDigest>)
        ensures
            r is Ok <==> (text@.len() == 40 && spec_all_hex(text@)),
            r matches Ok(d) ==> d@ == spec_from_hex(text@) && d.wf(),
    {
        let n = text.unicode_len();
        if n != 40 {
            return Err(MalformedDigest);
        }
        let mut bytes: Vec<u8> = Vec::new();
        let mut i: usize = 0;
        while i < 20
            invariant
                n == text@.len(),
                n == 40,
                i <= 20,
                forall|j: int| 0 <= j < 2 * i ==> spec_hex_val(#[trigger] text@[j]) is Some,
                bytes@ =~= spec_from_hex(text@).subrange(0, i as int),
            decreases 20 - i,
        {
            let hi = match Self::hex_val(text.get_char(2 * i)) {
                Some(v) => v,
                None => {
                    return Err(MalformedDigest);
                },
            };
            let lo = match Self::hex_val(text.get_char(2 * i + 1)) {
                Some(v) => v,
                None => {
                    return Err(MalformedDigest);
                },
            };
            bytes.push(hi * 16 + lo);
            proof {
                assert(spec_from_hex(text@)[i as int] == hi * 16 + lo);
                assert(bytes@ =~= spec_from_hex(text@).subrange(0, (i + 1) as int));
                assert forall|j: int| 0 <= j < 2 * (i + 1) implies spec_hex_val(
                    #[trigger] text@[j],
                ) is Some by {
                    if j < 2 * i {
                    } else if j == 2 * i {
                    } else {
                        assert(j == 2 * i + 1);
                    }
                }
            }
            i = i + 1;
        }
        proof {
            assert(bytes@ =~= spec_from_hex(text@));
        }
        Ok(Sha1Sum { bytes })
    }

    /// The value of one hex digit character, if it is one.
    fn hex_val(c: char) -> (r: Option<u8>)
        ensures
            r == spec_hex_val(c),
    {
        let v = c as u32;
        if 48 <= v && v <= 57 {
            Some((v - 48) as u8)
        } else if 97 <= v && v <= 102 {
            Some((v - 87) as u8)
        } else if 65 <= v && v <= 70 {
            Some((v - 55) as u8)
        } else {
            None
        }
    }

    /// The 40-digit lowercase hex text of the checksum.
    pub fn to_hex(&self) -> (r: String)
        requires
            self.wf(),
        ensures
            r@ == spec_to_hex(self@),
            r@.len() == 40,
    {
        let mut out = String::new();
        let mut i: usize = 0;
        while i < 20
            invariant
                self@.len() == 20,
                self.bytes@.len() == 20,
                i <= 20,
                out@ =~= spec_to_hex(self@).subrange(0, 2 * i as int),
            decreases 20 - i,
        {
            let b = self.bytes[i];
            crate::strutil::push_char(&mut out, Self::hex_char(b / 16));
            crate::strutil::push_char(&mut out, Self::hex_char(b % 16));
            proof {
                assert(spec_to_hex(self@)[2 * i as int] == spec_hex_char(b / 16));
                assert(spec_to_hex(self@)[2 * i + 1] == spec_hex_char(b % 16));
                assert(out@ =~= spec_to_hex(self@).subrange(0, 2 * (i + 1) as int));
            }
            i = i + 1;
        }
        proof {
            assert(spec_to_hex(self@).subrange(0, 40) =~= spec_to_hex(self@));
        }
        out
    }

    /// The lowercase hex digit character of a value below 16.
    fn hex_char(v: u8) -> (r: char)
        requires
            v < 16,
        ensures
            r == spec_hex_char(v),
    {
        if v < 10 {
            (v + 48) as char
        } else {
            (v + 87) as char
        }
    }

    /// Byte-exact comparison of two checksums.
    pub fn equals(&self, other: &Self) -> (r: bool)
        ensures
            r == (self@ == other@),
    {
        let n = self.bytes.len();
        if n != other.bytes.len() {
            return false;
        }
        let mut i: usize = 0;
        while i < n
            invariant
                n == self@.len(),
                n == other@.len(),
                i <= n,
                forall|j: int| 0 <= j < i ==> self@[j] == other@[j],
            decreases n - i,
        {
            if self.bytes[i] != other.bytes[i] {
                return false;
            }
            i = i + 1;
        }
        proof {
            assert(self@ =~= other@);
        }
        true
    }
}

impl PartialEq for Sha1Sum {
    fn eq(&self, other: &Self) -> (r: bool)
        ensures
            r == (self@ == other@),
    {
        self.equals(other)
    }
}

impl vstd::std_specs::cmp::PartialEqSpecImpl for Sha1Sum {
    open spec fn obeys_eq_spec() -> bool {
        true
    }

    open spec fn eq_spec(&self, other: &Self) -> bool {
        self@ == other@
    }
}

/// The digest hex round trip: the hex text of any well-formed checksum has
/// exactly 40 digits, and decoding it yields the same checksum bytes.
pub proof fn lemma_digest_hex_round_trip(d: Sha1Sum)
    requires
        d.wf(),
    ensures
        spec_to_hex(d@).len() == 40,
        spec_all_hex(spec_to_hex(d@)),
        spec_from_hex(spec_to_hex(d@)) == d@,
{
    lemma_hex_round_trip(d@);
}

} // verus!
