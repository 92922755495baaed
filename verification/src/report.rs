//! The wire encoding of reports and of what they are made of.
//!
//! A report is the task ID (in the earliest protocol version only), the
//! report metadata, the public share and the encrypted input shares. What
//! has variable length follows its length; a list follows the length of the
//! encodings of its items.

use crate::codec::{
    lemma_u16_roundtrip, lemma_u32_roundtrip, lemma_u64_roundtrip, put_bytes, put_u16, put_u32,
    put_u64, take_bytes, take_u16, take_u32, take_u64, take_u8, u16_be, u16_from_be, u32_be,
    u32_from_be, u64_be, u64_from_be, CodecError,
};
use crate::messages::{
    Extension, HpkeCiphertext, Id, Report, ReportId, ReportMetadata, Time, EXTENSION_TASKPROV,
};
use crate::version::DapVersion;
use vstd::prelude::*;

verus! {

impl Extension {
    /// The type code of the extension.
    pub open spec fn typ(self) -> u16 {
        match self {
            Extension::Taskprov { .. } => EXTENSION_TASKPROV,
            Extension::Unhandled { typ, .. } => typ,
        }
    }

    /// The payload of the extension.
    pub open spec fn payload(self) -> Seq<u8> {
        match self {
            Extension::Taskprov { payload } => payload@,
            Extension::Unhandled { payload, .. } => payload@,
        }
    }

    /// The payload is short enough for its length to be encoded.
    pub open spec fn encodable(self) -> bool {
        self.payload().len() <= u16::MAX
    }

    /// The encoding of the extension: its type code, then its payload after
    /// the length of the payload in two bytes.
    pub open spec fn encoded(self) -> Seq<u8> {
        u16_be(self.typ()) + u16_be(self.payload().len() as u16) + self.payload()
    }

    /// Append the encoding of the extension to `bytes`.
    pub fn encode(&self, bytes: &mut Vec<u8>)
        requires
            self.encodable(),
        ensures
            final(bytes)@ == old(bytes)@ + self.encoded(),
    {
        match self {
            Extension::Taskprov { payload } => {
                put_u16(bytes, EXTENSION_TASKPROV);
                put_u16(bytes, payload.len() as u16);
                put_bytes(bytes, payload.as_slice());
            },
            Extension::Unhandled { typ, payload } => {
                put_u16(bytes, *typ);
                put_u16(bytes, payload.len() as u16);
                put_bytes(bytes, payload.as_slice());
            },
        }
        assert(bytes@ =~= old(bytes)@ + self.encoded());
    }
}

/// The encodings of `extensions`, one after another.
pub open spec fn encoded_extensions(extensions: Seq<Extension>) -> Seq<u8>
    decreases extensions.len(),
{
    if extensions.len() == 0 {
        Seq::empty()
    } else {
        encoded_extensions(extensions.drop_last()) + extensions.last().encoded()
    }
}

/// The encodings of `ciphertexts`, one after another.
pub open spec fn encoded_ciphertexts(ciphertexts: Seq<HpkeCiphertext>) -> Seq<u8>
    decreases ciphertexts.len(),
{
    if ciphertexts.len() == 0 {
        Seq::empty()
    } else {
        encoded_ciphertexts(ciphertexts.drop_last()) + ciphertexts.last().encoded()
    }
}

impl ReportMetadata {
    /// Each extension can be encoded, and so can the length of all of them.
    pub open spec fn encodable(self) -> bool {
        &&& forall|i: int|
            0 <= i < self.extensions@.len() ==> (#[trigger] self.extensions@[i]).encodable()
        &&& encoded_extensions(self.extensions@).len() <= u16::MAX
    }

    /// The encoding of the metadata: the report ID, the timestamp, and the
    /// extensions after their length in two bytes.
    pub open spec fn encoded(self) -> Seq<u8> {
        self.id@ + u64_be(self.time) + u16_be(encoded_extensions(self.extensions@).len() as u16)
            + encoded_extensions(self.extensions@)
    }

    /// Append the encoding of the metadata to `bytes`.
    pub fn encode(&self, bytes: &mut Vec<u8>)
        requires
            self.encodable(),
        ensures
            final(bytes)@ == old(bytes)@ + self.encoded(),
    {
        self.id.encode(bytes);
        put_u64(bytes, self.time);
        let mut items: Vec<u8> = Vec::new();
        let mut i: usize = 0;
        assert(self.extensions@.take(0) =~= Seq::empty());
        while i < self.extensions.len()
            invariant
                i <= self.extensions@.len(),
                self.encodable(),
                items@ == encoded_extensions(self.extensions@.take(i as int)),
            decreases self.extensions@.len() - i,
        {
            self.extensions[i].encode(&mut items);
            assert(self.extensions@.take(i + 1).drop_last() =~= self.extensions@.take(i as int));
            i += 1;
        }
        assert(self.extensions@.take(i as int) =~= self.extensions@);
        put_u16(bytes, items.len() as u16);
        put_bytes(bytes, items.as_slice());
        assert(bytes@ =~= old(bytes)@ + self.encoded());
    }
}

impl HpkeCiphertext {
    /// The encapsulated key and the payload are short enough for their
    /// lengths to be encoded.
    pub open spec fn encodable(self) -> bool {
        self.enc@.len() <= u16::MAX && self.payload@.len() <= u32::MAX
    }

    /// The encoding of the ciphertext: the config ID, the encapsulated key
    /// after its length in two bytes, and the payload after its length in
    /// four bytes.
    pub open spec fn encoded(self) -> Seq<u8> {
        seq![self.config_id] + u16_be(self.enc@.len() as u16) + self.enc@ + u32_be(
            self.payload@.len() as u32,
        ) + self.payload@
    }

    /// Append the encoding of the ciphertext to `bytes`.
    pub fn encode(&self, bytes: &mut Vec<u8>)
        requires
            self.encodable(),
        ensures
            final(bytes)@ == old(bytes)@ + self.encoded(),
    {
        bytes.push(self.config_id);
        put_u16(bytes, self.enc.len() as u16);
        put_bytes(bytes, self.enc.as_slice());
        put_u32(bytes, self.payload.len() as u32);
        put_bytes(bytes, self.payload.as_slice());
        assert(bytes@ =~= old(bytes)@ + self.encoded());
    }
}

impl Report {
    /// The report can be encoded for the given version: the version is
    /// known, the task ID is there where the version has it in the report,
    /// and the lengths of the parts of variable length can be encoded.
    pub open spec fn encodable(self, version: DapVersion) -> bool {
        &&& !(version is Unknown)
        &&& version is Draft02 ==> self.task_id is Some
        &&& self.metadata.encodable()
        &&& self.public_share@.len() <= u32::MAX
        &&& forall|i: int|
            0 <= i < self.encrypted_input_shares@.len() ==> (
            #[trigger] self.encrypted_input_shares@[i]).encodable()
        &&& encoded_ciphertexts(self.encrypted_input_shares@).len() <= u32::MAX
    }

    /// What the encoding of the report starts with: the task ID in the
    /// earliest version, and nothing in later ones.
    pub open spec fn encoded_task_id(self, version: DapVersion) -> Seq<u8> {
        if version is Draft02 {
            self.task_id->0@
        } else {
            Seq::empty()
        }
    }

    /// The encoding of the report: the task ID where the version has it, the
    /// metadata, the public share after its length in four bytes, and the
    /// encrypted input shares after their length in four bytes.
    pub open spec fn encoded(self, version: DapVersion) -> Seq<u8> {
        self.encoded_task_id(version) + self.metadata.encoded() + u32_be(
            self.public_share@.len() as u32,
        ) + self.public_share@ + u32_be(
            encoded_ciphertexts(self.encrypted_input_shares@).len() as u32,
        ) + encoded_ciphertexts(self.encrypted_input_shares@)
    }

    /// Append the encoding of the report for the given version to `bytes`.
    pub fn encode_with_param(&self, version: &DapVersion, bytes: &mut Vec<u8>)
        requires
            self.encodable(*version),
        ensures
            final(bytes)@ == old(bytes)@ + self.encoded(*version),
    {
        match (version, &self.task_id) {
            (DapVersion::Draft02, Some(task_id)) => {
                task_id.encode(bytes);
            },
            _ => {},
        }
        assert(bytes@ =~= old(bytes)@ + self.encoded_task_id(*version));
        self.metadata.encode(bytes);
        put_u32(bytes, self.public_share.len() as u32);
        put_bytes(bytes, self.public_share.as_slice());
        let mut items: Vec<u8> = Vec::new();
        let mut i: usize = 0;
        assert(self.encrypted_input_shares@.take(0) =~= Seq::empty());
        while i < self.encrypted_input_shares.len()
            invariant
                i <= self.encrypted_input_shares@.len(),
                self.encodable(*version),
                items@ == encoded_ciphertexts(self.encrypted_input_shares@.take(i as int)),
            decreases self.encrypted_input_shares@.len() - i,
        {
            self.encrypted_input_shares[i].encode(&mut items);
            assert(self.encrypted_input_shares@.take(i + 1).drop_last()
                =~= self.encrypted_input_shares@.take(i as int));
            i += 1;
        }
        assert(self.encrypted_input_shares@.take(i as int) =~= self.encrypted_input_shares@);
        put_u32(bytes, items.len() as u32);
        put_bytes(bytes, items.as_slice());
        assert(bytes@ =~= old(bytes)@ + self.encoded(*version));
    }

    /// The encoding of the report for the given version.
    pub fn get_encoded_with_param(&self, version: &DapVersion) -> (bytes: Vec<u8>)
        requires
            self.encodable(*version),
        ensures
            bytes@ == self.encoded(*version),
    {
        let mut bytes: Vec<u8> = Vec::new();
        self.encode_with_param(version, &mut bytes);
        assert(bytes@ =~= self.encoded(*version));
        bytes
    }
}


/// The content of a report extension: its type code and its payload.
pub struct ExtensionView {
    pub typ: u16,
    pub payload: Seq<u8>,
}

impl View for Extension {
    type V = ExtensionView;

    open spec fn view(&self) -> ExtensionView {
        ExtensionView { typ: self.typ(), payload: self.payload() }
    }
}

/// The content of an HPKE ciphertext.
pub struct CiphertextView {
    pub config_id: u8,
    pub enc: Seq<u8>,
    pub payload: Seq<u8>,
}

impl View for HpkeCiphertext {
    type V = CiphertextView;

    open spec fn view(&self) -> CiphertextView {
        CiphertextView { config_id: self.config_id, enc: self.enc@, payload: self.payload@ }
    }
}

/// The content of report metadata.
pub struct MetadataView {
    pub id: Seq<u8>,
    pub time: Time,
    pub extensions: Seq<ExtensionView>,
}

/// The content of each extension in `extensions`.
pub open spec fn extension_views(extensions: Seq<Extension>) -> Seq<ExtensionView> {
    Seq::new(extensions.len(), |i: int| extensions[i]@)
}

/// The content of each ciphertext in `ciphertexts`.
pub open spec fn ciphertext_views(ciphertexts: Seq<HpkeCiphertext>) -> Seq<CiphertextView> {
    Seq::new(ciphertexts.len(), |i: int| ciphertexts[i]@)
}

impl View for ReportMetadata {
    type V = MetadataView;

    open spec fn view(&self) -> MetadataView {
        MetadataView {
            id: self.id@,
            time: self.time,
            extensions: extension_views(self.extensions@),
        }
    }
}

/// The content of a report.
pub struct ReportView {
    pub task_id: Option<Seq<u8>>,
    pub metadata: MetadataView,
    pub public_share: Seq<u8>,
    pub encrypted_input_shares: Seq<CiphertextView>,
}

impl View for Report {
    type V = ReportView;

    open spec fn view(&self) -> ReportView {
        ReportView {
            task_id: match self.task_id {
                Some(id) => Some(id@),
                None => None,
            },
            metadata: self.metadata@,
            public_share: self.public_share@,
            encrypted_input_shares: ciphertext_views(self.encrypted_input_shares@),
        }
    }
}

/// The bytes at the front of `data` that follow their length in two bytes,
/// and how many bytes both take.
#[verifier::opaque]
pub open spec fn read_u16_bytes(data: Seq<u8>) -> Result<(Seq<u8>, nat), CodecError> {
    if data.len() < 2 {
        Err(CodecError::Io)
    } else {
        let n = u16_from_be(data.subrange(0, 2)) as nat;
        if data.len() - 2 < n {
            Err(CodecError::Io)
        } else {
            Ok((data.subrange(2, 2 + n as int), 2 + n))
        }
    }
}

/// The bytes at the front of `data` that follow their length in four bytes,
/// and how many bytes both take.
#[verifier::opaque]
pub open spec fn read_u32_bytes(data: Seq<u8>) -> Result<(Seq<u8>, nat), CodecError> {
    if data.len() < 4 {
        Err(CodecError::Io)
    } else {
        let n = u32_from_be(data.subrange(0, 4)) as nat;
        if data.len() - 4 < n {
            Err(CodecError::Io)
        } else {
            Ok((data.subrange(4, 4 + n as int), 4 + n))
        }
    }
}

/// Read bytes that follow their length in two bytes, at `pos`.
pub fn take_u16_bytes(bytes: &[u8], pos: usize) -> (r: Result<(Vec<u8>, usize), CodecError>)
    requires
        pos <= bytes@.len(),
    ensures
        match r {
            Ok((data, next)) => {
                &&& pos <= next <= bytes@.len()
                &&& read_u16_bytes(bytes@.skip(pos as int)) == Ok::<_, CodecError>(
                    (data@, (next - pos) as nat),
                )
            },
            Err(e) => read_u16_bytes(bytes@.skip(pos as int)) == Err::<(Seq<u8>, nat), _>(e),
        },
{
    let ghost data = bytes@.skip(pos as int);
    reveal(read_u16_bytes);
    let (n, start) = match take_u16(bytes, pos) {
        Ok(read) => read,
        Err(e) => {
            return Err(e);
        },
    };
    assert(data.subrange(0, 2) =~= bytes@.subrange(pos as int, pos + 2));
    match take_bytes(bytes, start, n as usize) {
        Ok((payload, next)) => {
            assert(data.subrange(2, 2 + n) =~= bytes@.subrange(start as int, start + n));
            Ok((payload, next))
        },
        Err(e) => Err(e),
    }
}

/// Read bytes that follow their length in four bytes, at `pos`.
pub fn take_u32_bytes(bytes: &[u8], pos: usize) -> (r: Result<(Vec<u8>, usize), CodecError>)
    requires
        pos <= bytes@.len(),
    ensures
        match r {
            Ok((data, next)) => {
                &&& pos <= next <= bytes@.len()
                &&& read_u32_bytes(bytes@.skip(pos as int)) == Ok::<_, CodecError>(
                    (data@, (next - pos) as nat),
                )
            },
            Err(e) => read_u32_bytes(bytes@.skip(pos as int)) == Err::<(Seq<u8>, nat), _>(e),
        },
{
    let ghost data = bytes@.skip(pos as int);
    reveal(read_u32_bytes);
    let (n, start) = match take_u32(bytes, pos) {
        Ok(read) => read,
        Err(e) => {
            return Err(e);
        },
    };
    assert(data.subrange(0, 4) =~= bytes@.subrange(pos as int, pos + 4));
    if bytes.len() - start < n as usize {
        return Err(CodecError::Io);
    }
    match take_bytes(bytes, start, n as usize) {
        Ok((payload, next)) => {
            assert(data.subrange(4, 4 + n) =~= bytes@.subrange(start as int, start + n));
            Ok((payload, next))
        },
        Err(e) => Err(e),
    }
}

/// The extension at the front of `data`, and how many bytes it takes.
#[verifier::opaque]
pub open spec fn read_extension(data: Seq<u8>) -> Result<(ExtensionView, nat), CodecError> {
    if data.len() < 2 {
        Err(CodecError::Io)
    } else {
        match read_u16_bytes(data.skip(2)) {
            Ok((payload, n)) => Ok(
                (ExtensionView { typ: u16_from_be(data.subrange(0, 2)), payload }, 2 + n),
            ),
            Err(e) => Err(e),
        }
    }
}

/// An extension takes at least four bytes, and no more than there are.
pub proof fn lemma_read_extension_takes(data: Seq<u8>)
    ensures
        read_extension(data) matches Ok((_, n)) ==> 4 <= n <= data.len(),
{
    reveal(read_extension);
    reveal(read_u16_bytes);
}

/// The extensions that `data` is the encoding of, one after another.
pub open spec fn read_extensions(data: Seq<u8>) -> Result<Seq<ExtensionView>, CodecError>
    decreases data.len(),
{
    if data.len() == 0 {
        Ok(Seq::empty())
    } else {
        proof {
            lemma_read_extension_takes(data);
        }
        match read_extension(data) {
            Ok((first, n)) => match read_extensions(data.skip(n as int)) {
                Ok(rest) => Ok(seq![first] + rest),
                Err(e) => Err(e),
            },
            Err(e) => Err(e),
        }
    }
}

/// The list of extensions at the front of `data`, which follows the length
/// of its encoding in two bytes, and how many bytes both take.
#[verifier::opaque]
pub open spec fn read_extension_list(data: Seq<u8>) -> Result<
    (Seq<ExtensionView>, nat),
    CodecError,
> {
    if data.len() < 2 {
        Err(CodecError::Io)
    } else {
        let n = u16_from_be(data.subrange(0, 2)) as nat;
        if data.len() - 2 < n {
            Err(CodecError::LengthPrefixTooBig(n as usize))
        } else {
            match read_extensions(data.subrange(2, 2 + n as int)) {
                Ok(extensions) => Ok((extensions, 2 + n)),
                Err(e) => Err(e),
            }
        }
    }
}

impl Extension {
    /// Read an extension at `pos`, from what of `bytes` comes before `end`.
    pub fn decode(bytes: &[u8], pos: usize, end: usize) -> (r: Result<
        (Extension, usize),
        CodecError,
    >)
        requires
            pos <= end <= bytes@.len(),
        ensures
            match r {
                Ok((extension, next)) => {
                    &&& pos <= next <= end
                    &&& read_extension(bytes@.subrange(pos as int, end as int)) == Ok::<
                        _,
                        CodecError,
                    >((extension@, (next - pos) as nat))
                },
                Err(e) => read_extension(bytes@.subrange(pos as int, end as int)) == Err::<
                    (ExtensionView, nat),
                    _,
                >(e),
            },
    {
        let within = &bytes[0..end];
        let ghost data = bytes@.subrange(pos as int, end as int);
        reveal(read_extension);
        assert(within@.skip(pos as int) =~= data);
        let (typ, start) = match take_u16(within, pos) {
            Ok(read) => read,
            Err(e) => {
                return Err(e);
            },
        };
        assert(data.subrange(0, 2) =~= within@.subrange(pos as int, pos + 2));
        assert(within@.skip(start as int) =~= data.skip(2));
        match take_u16_bytes(within, start) {
            Ok((payload, next)) => {
                let extension = if typ == EXTENSION_TASKPROV {
                    Extension::Taskprov { payload }
                } else {
                    Extension::Unhandled { typ, payload }
                };
                Ok((extension, next))
            },
            Err(e) => Err(e),
        }
    }
}

/// What reading a list gives, where reading what is left of it gives `rest`
/// and `done` has been read already.
pub open spec fn after<V>(done: Seq<V>, rest: Result<Seq<V>, CodecError>) -> Result<
    Seq<V>,
    CodecError,
> {
    match rest {
        Ok(items) => Ok(done + items),
        Err(e) => Err(e),
    }
}

/// Read a list of extensions at `pos`, from what of `bytes` comes before
/// `end`.
pub fn decode_extension_list(bytes: &[u8], pos: usize, end: usize) -> (r: Result<
    (Vec<Extension>, usize),
    CodecError,
>)
    requires
        pos <= end <= bytes@.len(),
    ensures
        match r {
            Ok((extensions, next)) => {
                &&& pos <= next <= end
                &&& read_extension_list(bytes@.subrange(pos as int, end as int)) == Ok::<
                    _,
                    CodecError,
                >((extension_views(extensions@), (next - pos) as nat))
            },
            Err(e) => read_extension_list(bytes@.subrange(pos as int, end as int)) == Err::<
                (Seq<ExtensionView>, nat),
                _,
            >(e),
        },
{
    let within = &bytes[0..end];
    let ghost data = bytes@.subrange(pos as int, end as int);
    reveal(read_extension_list);
    assert(within@.skip(pos as int) =~= data);
    let (n, start) = match take_u16(within, pos) {
        Ok(read) => read,
        Err(e) => {
            return Err(e);
        },
    };
    assert(data.subrange(0, 2) =~= within@.subrange(pos as int, pos + 2));
    if end - start < n as usize {
        return Err(CodecError::LengthPrefixTooBig(n as usize));
    }
    let items_end = start + n as usize;
    let ghost items = bytes@.subrange(start as int, items_end as int);
    assert(items =~= data.subrange(2, 2 + n));
    assert(items.skip(0) =~= items);
    let mut extensions: Vec<Extension> = Vec::new();
    let mut at: usize = start;
    assert(extension_views(extensions@) + Seq::<ExtensionView>::empty()
        =~= Seq::<ExtensionView>::empty());
    while at < items_end
        invariant
            pos <= start <= at <= items_end <= end <= bytes@.len(),
            items_end - pos == 2 + n,
            items == bytes@.subrange(start as int, items_end as int),
            read_extension_list(bytes@.subrange(pos as int, end as int)) == (match read_extensions(
                items,
            ) {
                Ok(all) => Ok::<_, CodecError>((all, (2 + n) as nat)),
                Err(e) => Err(e),
            }),
            read_extensions(items) == after(
                extension_views(extensions@),
                read_extensions(items.skip(at - start)),
            ),
        decreases items_end - at,
    {
        let ghost left = items.skip(at - start);
        assert(left =~= bytes@.subrange(at as int, items_end as int));
        proof {
            lemma_read_extension_takes(left);
        }
        match Extension::decode(bytes, at, items_end) {
            Ok((extension, next)) => {
                let ghost before = extension_views(extensions@);
                extensions.push(extension);
                proof {
                    assert(left.skip(next - at) =~= items.skip(next - start));
                    assert(extension_views(extensions@) =~= before + seq![extension@]);
                    match read_extensions(items.skip(next - start)) {
                        Ok(rest) => {
                            assert(before + (seq![extension@] + rest) =~= extension_views(
                                extensions@,
                            ) + rest);
                        },
                        Err(_) => {},
                    }
                }
                at = next;
            },
            Err(e) => {
                return Err(e);
            },
        }
    }
    proof {
        assert(items.skip(at - start) =~= Seq::<u8>::empty());
        assert(extension_views(extensions@) + Seq::<ExtensionView>::empty() =~= extension_views(
            extensions@,
        ));
    }
    Ok((extensions, items_end))
}

/// The report metadata at the front of `data`, and how many bytes it takes.
#[verifier::opaque]
pub open spec fn read_metadata(data: Seq<u8>) -> Result<(MetadataView, nat), CodecError> {
    if data.len() < 24 {
        Err(CodecError::Io)
    } else {
        match read_extension_list(data.skip(24)) {
            Ok((extensions, n)) => Ok(
                (
                    MetadataView {
                        id: data.subrange(0, 16),
                        time: u64_from_be(data.subrange(16, 24)),
                        extensions,
                    },
                    24 + n,
                ),
            ),
            Err(e) => Err(e),
        }
    }
}

/// The ciphertext at the front of `data`, and how many bytes it takes.
#[verifier::opaque]
pub open spec fn read_ciphertext(data: Seq<u8>) -> Result<(CiphertextView, nat), CodecError> {
    if data.len() < 1 {
        Err(CodecError::Io)
    } else {
        match read_u16_bytes(data.skip(1)) {
            Ok((enc, n)) => match read_u32_bytes(data.skip((1 + n) as int)) {
                Ok((payload, m)) => Ok(
                    (CiphertextView { config_id: data[0], enc, payload }, 1 + n + m),
                ),
                Err(e) => Err(e),
            },
            Err(e) => Err(e),
        }
    }
}

/// A ciphertext takes at least seven bytes, and no more than there are.
pub proof fn lemma_read_ciphertext_takes(data: Seq<u8>)
    ensures
        read_ciphertext(data) matches Ok((_, n)) ==> 7 <= n <= data.len(),
{
    reveal(read_ciphertext);
    reveal(read_u16_bytes);
    reveal(read_u32_bytes);
}

/// The ciphertexts that `data` is the encoding of, one after another.
pub open spec fn read_ciphertexts(data: Seq<u8>) -> Result<Seq<CiphertextView>, CodecError>
    decreases data.len(),
{
    if data.len() == 0 {
        Ok(Seq::empty())
    } else {
        proof {
            lemma_read_ciphertext_takes(data);
        }
        match read_ciphertext(data) {
            Ok((first, n)) => match read_ciphertexts(data.skip(n as int)) {
                Ok(rest) => Ok(seq![first] + rest),
                Err(e) => Err(e),
            },
            Err(e) => Err(e),
        }
    }
}

/// The list of ciphertexts at the front of `data`, which follows the length
/// of its encoding in four bytes, and how many bytes both take.
#[verifier::opaque]
pub open spec fn read_ciphertext_list(data: Seq<u8>) -> Result<
    (Seq<CiphertextView>, nat),
    CodecError,
> {
    if data.len() < 4 {
        Err(CodecError::Io)
    } else {
        let n = u32_from_be(data.subrange(0, 4)) as nat;
        if data.len() - 4 < n {
            Err(CodecError::LengthPrefixTooBig(n as usize))
        } else {
            match read_ciphertexts(data.subrange(4, 4 + n as int)) {
                Ok(ciphertexts) => Ok((ciphertexts, 4 + n)),
                Err(e) => Err(e),
            }
        }
    }
}

/// How many bytes the task ID takes at the front of a report.
pub open spec fn task_id_len(version: DapVersion) -> nat {
    if version is Draft02 {
        32
    } else {
        0
    }
}

/// The report at the front of `data`, and how many bytes it takes.
#[verifier::opaque]
pub open spec fn read_report(version: DapVersion, data: Seq<u8>) -> Result<
    (ReportView, nat),
    CodecError,
> {
    let t = task_id_len(version);
    if data.len() < t {
        Err(CodecError::Io)
    } else {
        match read_metadata(data.skip(t as int)) {
            Ok((metadata, n)) => match read_u32_bytes(data.skip((t + n) as int)) {
                Ok((public_share, m)) => match read_ciphertext_list(data.skip((t + n + m) as int)) {
                    Ok((encrypted_input_shares, k)) => Ok(
                        (
                            ReportView {
                                task_id: if version is Draft02 {
                                    Some(data.subrange(0, 32))
                                } else {
                                    None
                                },
                                metadata,
                                public_share,
                                encrypted_input_shares,
                            },
                            t + n + m + k,
                        ),
                    ),
                    Err(e) => Err(e),
                },
                Err(e) => Err(e),
            },
            Err(e) => Err(e),
        }
    }
}

impl ReportMetadata {
    /// Read report metadata at `pos`.
    pub fn decode(bytes: &[u8], pos: usize) -> (r: Result<(ReportMetadata, usize), CodecError>)
        requires
            pos <= bytes@.len(),
        ensures
            match r {
                Ok((metadata, next)) => {
                    &&& pos <= next <= bytes@.len()
                    &&& read_metadata(bytes@.skip(pos as int)) == Ok::<_, CodecError>(
                        (metadata@, (next - pos) as nat),
                    )
                },
                Err(e) => read_metadata(bytes@.skip(pos as int)) == Err::<(MetadataView, nat), _>(
                    e,
                ),
            },
    {
        let ghost data = bytes@.skip(pos as int);
        reveal(read_metadata);
        let (id, after_id) = match ReportId::decode(bytes, pos) {
            Ok(read) => read,
            Err(e) => {
                return Err(e);
            },
        };
        let (time, after_time) = match take_u64(bytes, after_id) {
            Ok(read) => read,
            Err(e) => {
                return Err(e);
            },
        };
        assert(data.subrange(0, 16) =~= bytes@.subrange(pos as int, pos + 16));
        assert(data.subrange(16, 24) =~= bytes@.subrange(after_id as int, after_id + 8));
        assert(data.skip(24) =~= bytes@.subrange(after_time as int, bytes@.len() as int));
        match decode_extension_list(bytes, after_time, bytes.len()) {
            Ok((extensions, next)) => Ok((ReportMetadata { id, time, extensions }, next)),
            Err(e) => Err(e),
        }
    }
}

impl HpkeCiphertext {
    /// Read a ciphertext at `pos`, from what of `bytes` comes before `end`.
    pub fn decode(bytes: &[u8], pos: usize, end: usize) -> (r: Result<
        (HpkeCiphertext, usize),
        CodecError,
    >)
        requires
            pos <= end <= bytes@.len(),
        ensures
            match r {
                Ok((ciphertext, next)) => {
                    &&& pos <= next <= end
                    &&& read_ciphertext(bytes@.subrange(pos as int, end as int)) == Ok::<
                        _,
                        CodecError,
                    >((ciphertext@, (next - pos) as nat))
                },
                Err(e) => read_ciphertext(bytes@.subrange(pos as int, end as int)) == Err::<
                    (CiphertextView, nat),
                    _,
                >(e),
            },
    {
        let within = &bytes[0..end];
        let ghost data = bytes@.subrange(pos as int, end as int);
        reveal(read_ciphertext);
        assert(within@.skip(pos as int) =~= data);
        let (config_id, after_id) = match take_u8(within, pos) {
            Ok(read) => read,
            Err(e) => {
                return Err(e);
            },
        };
        assert(within@.skip(after_id as int) =~= data.skip(1));
        let (enc, after_enc) = match take_u16_bytes(within, after_id) {
            Ok(read) => read,
            Err(e) => {
                return Err(e);
            },
        };
        assert(within@.skip(after_enc as int) =~= data.skip(1 + (after_enc - after_id)));
        match take_u32_bytes(within, after_enc) {
            Ok((payload, next)) => Ok((HpkeCiphertext { config_id, enc, payload }, next)),
            Err(e) => Err(e),
        }
    }
}

/// Read a list of ciphertexts at `pos`.
pub fn decode_ciphertext_list(bytes: &[u8], pos: usize) -> (r: Result<
    (Vec<HpkeCiphertext>, usize),
    CodecError,
>)
    requires
        pos <= bytes@.len(),
    ensures
        match r {
            Ok((ciphertexts, next)) => {
                &&& pos <= next <= bytes@.len()
                &&& read_ciphertext_list(bytes@.skip(pos as int)) == Ok::<_, CodecError>(
                    (ciphertext_views(ciphertexts@), (next - pos) as nat),
                )
            },
            Err(e) => read_ciphertext_list(bytes@.skip(pos as int)) == Err::<
                (Seq<CiphertextView>, nat),
                _,
            >(e),
        },
{
    let ghost data = bytes@.skip(pos as int);
    reveal(read_ciphertext_list);
    let (n, start) = match take_u32(bytes, pos) {
        Ok(read) => read,
        Err(e) => {
            return Err(e);
        },
    };
    assert(data.subrange(0, 4) =~= bytes@.subrange(pos as int, pos + 4));
    if bytes.len() - start < n as usize {
        return Err(CodecError::LengthPrefixTooBig(n as usize));
    }
    let items_end = start + n as usize;
    let ghost items = bytes@.subrange(start as int, items_end as int);
    assert(items =~= data.subrange(4, 4 + n));
    assert(items.skip(0) =~= items);
    let mut ciphertexts: Vec<HpkeCiphertext> = Vec::new();
    let mut at: usize = start;
    assert(ciphertext_views(ciphertexts@) + Seq::<CiphertextView>::empty()
        =~= Seq::<CiphertextView>::empty());
    while at < items_end
        invariant
            pos <= start <= at <= items_end <= bytes@.len(),
            items_end - pos == 4 + n,
            items == bytes@.subrange(start as int, items_end as int),
            read_ciphertext_list(bytes@.skip(pos as int)) == (match read_ciphertexts(items) {
                Ok(all) => Ok::<_, CodecError>((all, (4 + n) as nat)),
                Err(e) => Err(e),
            }),
            read_ciphertexts(items) == after(
                ciphertext_views(ciphertexts@),
                read_ciphertexts(items.skip(at - start)),
            ),
        decreases items_end - at,
    {
        let ghost left = items.skip(at - start);
        assert(left =~= bytes@.subrange(at as int, items_end as int));
        proof {
            lemma_read_ciphertext_takes(left);
        }
        match HpkeCiphertext::decode(bytes, at, items_end) {
            Ok((ciphertext, next)) => {
                let ghost before = ciphertext_views(ciphertexts@);
                ciphertexts.push(ciphertext);
                proof {
                    assert(left.skip(next - at) =~= items.skip(next - start));
                    assert(ciphertext_views(ciphertexts@) =~= before + seq![ciphertext@]);
                    match read_ciphertexts(items.skip(next - start)) {
                        Ok(rest) => {
                            assert(before + (seq![ciphertext@] + rest) =~= ciphertext_views(
                                ciphertexts@,
                            ) + rest);
                        },
                        Err(_) => {},
                    }
                }
                at = next;
            },
            Err(e) => {
                return Err(e);
            },
        }
    }
    proof {
        assert(items.skip(at - start) =~= Seq::<u8>::empty());
        assert(ciphertext_views(ciphertexts@) + Seq::<CiphertextView>::empty()
            =~= ciphertext_views(ciphertexts@));
    }
    Ok((ciphertexts, items_end))
}

impl Report {
    /// Read a report of the given version at `pos`.
    pub fn decode_with_param(version: &DapVersion, bytes: &[u8], pos: usize) -> (r: Result<
        (Report, usize),
        CodecError,
    >)
        requires
            pos <= bytes@.len(),
            !(version is Unknown),
        ensures
            match r {
                Ok((report, next)) => {
                    &&& pos <= next <= bytes@.len()
                    &&& read_report(*version, bytes@.skip(pos as int)) == Ok::<_, CodecError>(
                        (report@, (next - pos) as nat),
                    )
                },
                Err(e) => read_report(*version, bytes@.skip(pos as int)) == Err::<
                    (ReportView, nat),
                    _,
                >(e),
            },
    {
        let ghost data = bytes@.skip(pos as int);
        reveal(read_report);
        let (task_id, start) = match version {
            DapVersion::Draft02 => match Id::decode(bytes, pos) {
                Ok((id, next)) => (Some(id), next),
                Err(e) => {
                    return Err(e);
                },
            },
            _ => (None, pos),
        };
        let ghost t = task_id_len(*version) as int;
        assert(start == pos + t);
        assert(data.subrange(0, t) =~= bytes@.subrange(pos as int, pos + t));
        assert(bytes@.skip(start as int) =~= data.skip(t));
        let (metadata, after_metadata) = match ReportMetadata::decode(bytes, start) {
            Ok(read) => read,
            Err(e) => {
                return Err(e);
            },
        };
        assert(bytes@.skip(after_metadata as int) =~= data.skip(after_metadata - pos));
        let (public_share, after_share) = match take_u32_bytes(bytes, after_metadata) {
            Ok(read) => read,
            Err(e) => {
                return Err(e);
            },
        };
        assert(bytes@.skip(after_share as int) =~= data.skip(after_share - pos));
        match decode_ciphertext_list(bytes, after_share) {
            Ok((encrypted_input_shares, next)) => Ok(
                (Report { task_id, metadata, public_share, encrypted_input_shares }, next),
            ),
            Err(e) => Err(e),
        }
    }

    /// Decode a report of the given version from exactly the bytes given.
    pub fn get_decoded_with_param(version: &DapVersion, bytes: &[u8]) -> (r: Result<
        Report,
        CodecError,
    >)
        requires
            !(version is Unknown),
        ensures
            match r {
                Ok(report) => read_report(*version, bytes@) == Ok::<_, CodecError>(
                    (report@, bytes@.len()),
                ),
                Err(e) => match read_report(*version, bytes@) {
                    Ok((_, n)) => n < bytes@.len() && e == CodecError::BytesLeftOver(
                        (bytes@.len() - n) as usize,
                    ),
                    Err(f) => e == f,
                },
            },
    {
        assert(bytes@.skip(0) =~= bytes@);
        match Report::decode_with_param(version, bytes, 0) {
            Ok((report, next)) => {
                if next != bytes.len() {
                    return Err(CodecError::BytesLeftOver(bytes.len() - next));
                }
                Ok(report)
            },
            Err(e) => Err(e),
        }
    }
}

/// Reading bytes that were written after their length gives the bytes back.
pub proof fn lemma_read_bytes_roundtrip(payload: Seq<u8>, tail: Seq<u8>)
    ensures
        payload.len() <= u16::MAX ==> read_u16_bytes(
            u16_be(payload.len() as u16) + payload + tail,
        ) == Ok::<_, CodecError>((payload, 2 + payload.len())),
        payload.len() <= u32::MAX ==> read_u32_bytes(
            u32_be(payload.len() as u32) + payload + tail,
        ) == Ok::<_, CodecError>((payload, 4 + payload.len())),
{
    reveal(read_u16_bytes);
    reveal(read_u32_bytes);
    if payload.len() <= u16::MAX {
        let n = payload.len() as u16;
        let data = u16_be(n) + payload + tail;
        lemma_u16_roundtrip(n);
        assert(data.subrange(0, 2) =~= u16_be(n));
        assert(data.subrange(2, 2 + n) =~= payload);
    }
    if payload.len() <= u32::MAX {
        let n = payload.len() as u32;
        let data = u32_be(n) + payload + tail;
        lemma_u32_roundtrip(n);
        assert(data.subrange(0, 4) =~= u32_be(n));
        assert(data.subrange(4, 4 + n) =~= payload);
    }
}

/// Reading an encoded extension gives its content back.
pub proof fn lemma_read_extension_roundtrip(extension: Extension, tail: Seq<u8>)
    requires
        extension.encodable(),
    ensures
        read_extension(extension.encoded() + tail) == Ok::<_, CodecError>(
            (extension@, extension.encoded().len()),
        ),
        extension.encoded().len() >= 4,
{
    let payload = extension.payload();
    let data = extension.encoded() + tail;
    reveal(read_extension);
    lemma_u16_roundtrip(extension.typ());
    lemma_read_bytes_roundtrip(payload, tail);
    assert(data.subrange(0, 2) =~= u16_be(extension.typ()));
    assert(data.skip(2) =~= u16_be(payload.len() as u16) + payload + tail);
}

/// Reading an encoded ciphertext gives its content back.
pub proof fn lemma_read_ciphertext_roundtrip(ciphertext: HpkeCiphertext, tail: Seq<u8>)
    requires
        ciphertext.encodable(),
    ensures
        read_ciphertext(ciphertext.encoded() + tail) == Ok::<_, CodecError>(
            (ciphertext@, ciphertext.encoded().len()),
        ),
        ciphertext.encoded().len() >= 7,
{
    let enc = ciphertext.enc@;
    let payload = ciphertext.payload@;
    let data = ciphertext.encoded() + tail;
    reveal(read_ciphertext);
    let rest = u32_be(payload.len() as u32) + payload + tail;
    lemma_read_bytes_roundtrip(enc, rest);
    lemma_read_bytes_roundtrip(payload, tail);
    assert(data.skip(1) =~= u16_be(enc.len() as u16) + enc + rest);
    assert(data.skip(3 + enc.len() as int) =~= rest);
}

/// The encoding of a list of extensions starts with the encoding of the
/// first.
pub proof fn lemma_encoded_extensions_front(extensions: Seq<Extension>)
    requires
        extensions.len() > 0,
    ensures
        encoded_extensions(extensions) == extensions[0].encoded() + encoded_extensions(
            extensions.skip(1),
        ),
    decreases extensions.len(),
{
    if extensions.len() == 1 {
        assert(extensions.drop_last() =~= Seq::<Extension>::empty());
        assert(extensions.skip(1) =~= Seq::<Extension>::empty());
        assert(encoded_extensions(extensions) =~= extensions[0].encoded() + encoded_extensions(
            extensions.skip(1),
        ));
    } else {
        lemma_encoded_extensions_front(extensions.drop_last());
        assert(extensions.drop_last().skip(1) =~= extensions.skip(1).drop_last());
        assert(encoded_extensions(extensions) =~= extensions[0].encoded() + encoded_extensions(
            extensions.skip(1),
        ));
    }
}

/// The encoding of a list of ciphertexts starts with the encoding of the
/// first.
pub proof fn lemma_encoded_ciphertexts_front(ciphertexts: Seq<HpkeCiphertext>)
    requires
        ciphertexts.len() > 0,
    ensures
        encoded_ciphertexts(ciphertexts) == ciphertexts[0].encoded() + encoded_ciphertexts(
            ciphertexts.skip(1),
        ),
    decreases ciphertexts.len(),
{
    if ciphertexts.len() == 1 {
        assert(ciphertexts.drop_last() =~= Seq::<HpkeCiphertext>::empty());
        assert(ciphertexts.skip(1) =~= Seq::<HpkeCiphertext>::empty());
        assert(encoded_ciphertexts(ciphertexts) =~= ciphertexts[0].encoded()
            + encoded_ciphertexts(ciphertexts.skip(1)));
    } else {
        lemma_encoded_ciphertexts_front(ciphertexts.drop_last());
        assert(ciphertexts.drop_last().skip(1) =~= ciphertexts.skip(1).drop_last());
        assert(encoded_ciphertexts(ciphertexts) =~= ciphertexts[0].encoded()
            + encoded_ciphertexts(ciphertexts.skip(1)));
    }
}

/// Reading the encoding of a list of extensions gives their content back.
pub proof fn lemma_read_extensions_roundtrip(extensions: Seq<Extension>)
    requires
        forall|i: int| 0 <= i < extensions.len() ==> (#[trigger] extensions[i]).encodable(),
    ensures
        read_extensions(encoded_extensions(extensions)) == Ok::<_, CodecError>(
            extension_views(extensions),
        ),
    decreases extensions.len(),
{
    if extensions.len() == 0 {
        assert(extension_views(extensions) =~= Seq::<ExtensionView>::empty());
    } else {
        let first = extensions[0];
        let rest = extensions.skip(1);
        lemma_encoded_extensions_front(extensions);
        lemma_read_extension_roundtrip(first, encoded_extensions(rest));
        assert forall|i: int| 0 <= i < rest.len() implies (#[trigger] rest[i]).encodable() by {
            assert(rest[i] == extensions[i + 1]);
        }
        lemma_read_extensions_roundtrip(rest);
        let data = encoded_extensions(extensions);
        assert(data.skip(first.encoded().len() as int) =~= encoded_extensions(rest));
        assert(seq![first@] + extension_views(rest) =~= extension_views(extensions));
    }
}

/// Reading the encoding of a list of ciphertexts gives their content back.
pub proof fn lemma_read_ciphertexts_roundtrip(ciphertexts: Seq<HpkeCiphertext>)
    requires
        forall|i: int| 0 <= i < ciphertexts.len() ==> (#[trigger] ciphertexts[i]).encodable(),
    ensures
        read_ciphertexts(encoded_ciphertexts(ciphertexts)) == Ok::<_, CodecError>(
            ciphertext_views(ciphertexts),
        ),
    decreases ciphertexts.len(),
{
    if ciphertexts.len() == 0 {
        assert(ciphertext_views(ciphertexts) =~= Seq::<CiphertextView>::empty());
    } else {
        let first = ciphertexts[0];
        let rest = ciphertexts.skip(1);
        lemma_encoded_ciphertexts_front(ciphertexts);
        lemma_read_ciphertext_roundtrip(first, encoded_ciphertexts(rest));
        assert forall|i: int| 0 <= i < rest.len() implies (#[trigger] rest[i]).encodable() by {
            assert(rest[i] == ciphertexts[i + 1]);
        }
        lemma_read_ciphertexts_roundtrip(rest);
        let data = encoded_ciphertexts(ciphertexts);
        assert(data.skip(first.encoded().len() as int) =~= encoded_ciphertexts(rest));
        assert(seq![first@] + ciphertext_views(rest) =~= ciphertext_views(ciphertexts));
    }
}

/// Reading encoded report metadata gives its content back.
pub proof fn lemma_read_metadata_roundtrip(metadata: ReportMetadata, tail: Seq<u8>)
    requires
        metadata.encodable(),
    ensures
        read_metadata(metadata.encoded() + tail) == Ok::<_, CodecError>(
            (metadata@, metadata.encoded().len()),
        ),
{
    let items = encoded_extensions(metadata.extensions@);
    let n = items.len() as u16;
    let data = metadata.encoded() + tail;
    let list = data.skip(24);
    reveal(read_metadata);
    reveal(read_extension_list);
    lemma_u64_roundtrip(metadata.time);
    lemma_u16_roundtrip(n);
    lemma_read_extensions_roundtrip(metadata.extensions@);
    assert(data.subrange(0, 16) =~= metadata.id@);
    assert(data.subrange(16, 24) =~= u64_be(metadata.time));
    assert(list =~= u16_be(n) + items + tail);
    assert(list.subrange(0, 2) =~= u16_be(n));
    assert(list.subrange(2, 2 + n) =~= items);
}

/// What decoding gives for a report that was encoded for the given version:
/// the report, without the task ID where the version does not encode it.
pub open spec fn as_encoded(report: Report, version: DapVersion) -> ReportView {
    ReportView {
        task_id: if version is Draft02 {
            report@.task_id
        } else {
            None
        },
        metadata: report@.metadata,
        public_share: report@.public_share,
        encrypted_input_shares: report@.encrypted_input_shares,
    }
}

/// Reading the encoding of a list of ciphertexts, after its length, gives
/// their content back.
pub proof fn lemma_read_ciphertext_list_roundtrip(ciphertexts: Seq<HpkeCiphertext>, tail: Seq<u8>)
    requires
        forall|i: int| 0 <= i < ciphertexts.len() ==> (#[trigger] ciphertexts[i]).encodable(),
        encoded_ciphertexts(ciphertexts).len() <= u32::MAX,
    ensures
        read_ciphertext_list(
            u32_be(encoded_ciphertexts(ciphertexts).len() as u32) + encoded_ciphertexts(
                ciphertexts,
            ) + tail,
        ) == Ok::<_, CodecError>(
            (ciphertext_views(ciphertexts), 4 + encoded_ciphertexts(ciphertexts).len()),
        ),
{
    reveal(read_ciphertext_list);
    let items = encoded_ciphertexts(ciphertexts);
    let n = items.len() as u32;
    let data = u32_be(n) + items + tail;
    lemma_u32_roundtrip(n);
    lemma_read_ciphertexts_roundtrip(ciphertexts);
    assert(data.subrange(0, 4) =~= u32_be(n));
    assert(data.subrange(4, 4 + n) =~= items);
}

/// The encoding of a report is made of four parts: the task ID where the
/// version has it, the metadata, the public share and the encrypted input
/// shares.
pub proof fn lemma_report_encoding_parts(report: Report, version: DapVersion)
    ensures
        report.encoded(version) == report.encoded_task_id(version) + (report.metadata.encoded() + (
        u32_be(report.public_share@.len() as u32) + report.public_share@ + (u32_be(
            encoded_ciphertexts(report.encrypted_input_shares@).len() as u32,
        ) + encoded_ciphertexts(report.encrypted_input_shares@) + Seq::<u8>::empty()))),
{
    assert(report.encoded(version) =~= report.encoded_task_id(version) + (
    report.metadata.encoded() + (u32_be(report.public_share@.len() as u32) + report.public_share@
        + (u32_be(encoded_ciphertexts(report.encrypted_input_shares@).len() as u32)
        + encoded_ciphertexts(report.encrypted_input_shares@) + Seq::<u8>::empty()))));
}

/// What is read from the front of four parts put one after another, where
/// each part is read as what it encodes.
proof fn lemma_read_report_parts(
    version: DapVersion,
    task_id: Seq<u8>,
    metadata: Seq<u8>,
    public_share: Seq<u8>,
    shares: Seq<u8>,
    metadata_view: MetadataView,
    public_share_view: Seq<u8>,
    shares_view: Seq<CiphertextView>,
)
    requires
        task_id.len() == task_id_len(version),
        read_metadata(metadata + (public_share + shares)) == Ok::<_, CodecError>(
            (metadata_view, metadata.len()),
        ),
        read_u32_bytes(public_share + shares) == Ok::<_, CodecError>(
            (public_share_view, public_share.len()),
        ),
        read_ciphertext_list(shares) == Ok::<_, CodecError>((shares_view, shares.len())),
    ensures
        read_report(version, task_id + (metadata + (public_share + shares))) == Ok::<_, CodecError>(
            (
                ReportView {
                    task_id: if version is Draft02 {
                        Some(task_id)
                    } else {
                        None
                    },
                    metadata: metadata_view,
                    public_share: public_share_view,
                    encrypted_input_shares: shares_view,
                },
                task_id.len() + metadata.len() + public_share.len() + shares.len(),
            ),
        ),
{
    reveal(read_report);
    let data = task_id + (metadata + (public_share + shares));
    let t = task_id.len() as int;
    let n = metadata.len() as int;
    let m = public_share.len() as int;
    assert(data.skip(t) =~= metadata + (public_share + shares));
    assert(data.skip(t + n) =~= public_share + shares);
    assert(data.skip(t + n + m) =~= shares);
    if version is Draft02 {
        assert(data.subrange(0, 32) =~= task_id);
    }
}

/// Decoding the encoding of a report gives the report back, all of its
/// encoding being read.
pub proof fn lemma_report_roundtrip(report: Report, version: DapVersion)
    requires
        report.encodable(version),
    ensures
        read_report(version, report.encoded(version)) == Ok::<_, CodecError>(
            (as_encoded(report, version), report.encoded(version).len()),
        ),
{
    let empty = Seq::<u8>::empty();
    let task_id = report.encoded_task_id(version);
    let metadata = report.metadata.encoded();
    let public = report.public_share@;
    let public_share = u32_be(public.len() as u32) + public;
    let items = encoded_ciphertexts(report.encrypted_input_shares@);
    let shares = u32_be(items.len() as u32) + items + empty;
    lemma_report_encoding_parts(report, version);
    lemma_read_metadata_roundtrip(report.metadata, public_share + shares);
    lemma_read_bytes_roundtrip(public, shares);
    lemma_read_ciphertext_list_roundtrip(report.encrypted_input_shares@, empty);
    lemma_read_report_parts(
        version,
        task_id,
        metadata,
        public_share,
        shares,
        report.metadata@,
        public,
        ciphertext_views(report.encrypted_input_shares@),
    );
}

} // verus!
