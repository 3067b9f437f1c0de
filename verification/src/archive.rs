//! In-memory archive building, digests, and text transliteration.
//!
//! The package builder works entirely on bytes: entries go into a
//! gzip-compressed tar stream, and the finished streams become members of
//! the outer archive.  Each outside computation is named as a function of
//! its input alone.

use vstd::prelude::*;

use crate::color::spec_hex_byte;
use crate::strutil::{dec_digits, push_all, spec_dec, str_chars};

verus! {

/// A gzip-compressed tar stream being written in memory.  Verus cannot
/// state the writer bound of `tar::Builder`, so the builder lives in an
/// opaque struct and is reached only through the wrappers below.
#[verifier::external_body]
pub struct TarStream {
    inner: tar::Builder<flate2::write::GzEncoder<Vec<u8>>>,
}

/// The entries appended so far to a compressed tar stream: name and
/// content, in order.
pub uninterp spec fn tar_entries(t: TarStream) -> Seq<(Seq<char>, Seq<u8>)>;

/// The bytes of the finished gzip-compressed tar stream holding exactly
/// the given entries.
pub uninterp spec fn targz_of(entries: Seq<(Seq<char>, Seq<u8>)>) -> Seq<u8>;

/// Whether the tar writer accepts an entry with this name.  With an
/// in-memory writer nothing else can fail: the destination never errors
/// and any byte count fits the size field, so acceptance is a function of
/// the entry name alone.
pub uninterp spec fn tar_accepts(name: Seq<char>) -> bool;

/// The 8-byte digest of the input bytes.
pub uninterp spec fn blake2b8_of(data: Seq<u8>) -> Seq<u8>;

/// The ASCII transliteration of the text.
pub uninterp spec fn ascii_of(s: Seq<char>) -> Seq<char>;

/// The text quoted for a POSIX shell.
pub uninterp spec fn shell_escaped_of(s: Seq<char>) -> Seq<char>;

/// Relies on `tar::Builder::new` over `flate2::write::GzEncoder::new`
/// with the default compression level: a fresh stream holds no entries.
#[verifier::external_body]
pub fn targz_new() -> (t: TarStream)
    ensures
        tar_entries(t) == Seq::<(Seq<char>, Seq<u8>)>::empty(),
{
    TarStream {
        inner: tar::Builder::new(
            flate2::write::GzEncoder::new(Vec::new(), flate2::Compression::default()),
        ),
    }
}

/// Relies on `tar::Header` (GNU form, fixed file mode, zero owner and
/// time) and `tar::Builder::append_data`: with the in-memory writer the
/// call succeeds exactly when the entry name is acceptable, and on
/// success exactly one entry with the given name and bytes is appended.
#[verifier::external_body]
pub fn targz_append(t: &mut TarStream, name: &str, data: &Vec<u8>) -> (r: bool)
    ensures
        r == tar_accepts(name@),
        r ==> tar_entries(*final (t)) == tar_entries(*old(t)).push((name@, data@)),
{
    let mut header = tar::Header::new_gnu();
    header.set_size(data.len() as u64);
    header.set_mode(0o644);
    header.set_cksum();
    t.inner.append_data(&mut header, name, data.as_slice()).is_ok()
}

/// Relies on `tar::Builder::into_inner` and `GzEncoder::finish`: the
/// bytes of the finished stream are a function of the appended entries
/// alone.  Both steps only write trailers into the in-memory sink, which
/// never errors.
#[verifier::external_body]
pub fn targz_finish(t: TarStream) -> (r: Vec<u8>)
    ensures
        r@ == targz_of(tar_entries(t)),
{
    t.inner.into_inner().unwrap().finish().unwrap()
}

/// One member of the outer archive: a named byte blob.
pub struct ArMember {
    /// The member's file name.
    pub name: String,
    /// The member's bytes.
    pub data: Vec<u8>,
}

impl View for ArMember {
    type V = (Seq<char>, Seq<u8>);

    open spec fn view(&self) -> (Seq<char>, Seq<u8>) {
        (self.name@, self.data@)
    }
}

/// The views of a member vector.
pub open spec fn ar_member_views(ms: Seq<ArMember>) -> Seq<(Seq<char>, Seq<u8>)> {
    ms.map_values(|m: ArMember| m@)
}

/// The widest byte count the header's ten-digit size field can carry.
pub const AR_SIZE_MAX: u64 = 9_999_999_999;

/// Whether the fixed-width header can carry the member: a name of at
/// most 15 ASCII characters, and a size of at most ten decimal digits.
pub open spec fn spec_ar_member_ok(m: (Seq<char>, Seq<u8>)) -> bool {
    &&& m.0.len() <= 15
    &&& forall|i: int| 0 <= i < m.0.len() ==> (#[trigger] m.0[i]) <= '\u{7f}'
    &&& m.1.len() <= AR_SIZE_MAX
}

/// Whether every member fits its header.
pub open spec fn spec_ar_members_ok(ms: Seq<(Seq<char>, Seq<u8>)>) -> bool {
    forall|i: int| 0 <= i < ms.len() ==> spec_ar_member_ok(#[trigger] ms[i])
}

/// `n` space characters.
pub open spec fn spec_spaces(n: int) -> Seq<char>
    decreases n,
{
    if n <= 0 {
        Seq::empty()
    } else {
        spec_spaces(n - 1).push(' ')
    }
}

/// The text padded with spaces to the field width.
pub open spec fn spec_pad(s: Seq<char>, w: int) -> Seq<char> {
    s + spec_spaces(w - s.len())
}

/// Characters encoded one byte each; the header text is ASCII.
pub open spec fn spec_ascii_bytes(s: Seq<char>) -> Seq<u8> {
    s.map_values(|c: char| c as u8)
}

/// The 60-byte member header: the name with a trailing slash padded to
/// 16, zero time and owner fields, mode 644, the decimal size padded to
/// 10, and the two terminator bytes.
pub open spec fn spec_ar_header(name: Seq<char>, size: nat) -> Seq<u8> {
    spec_ascii_bytes(
        spec_pad(name + seq!['/'], 16) + spec_pad(seq!['0'], 12) + spec_pad(seq!['0'], 6)
            + spec_pad(seq!['0'], 6) + spec_pad(seq!['6', '4', '4'], 8) + spec_pad(
            spec_dec(size),
            10,
        ),
    ) + seq![0x60u8, 0x0au8]
}

/// A member's bytes in the archive: header, data, and a newline pad to
/// even length.
pub open spec fn spec_ar_member_bytes(m: (Seq<char>, Seq<u8>)) -> Seq<u8> {
    spec_ar_header(m.0, m.1.len()) + m.1 + (if m.1.len() % 2 == 1 {
        seq![0x0au8]
    } else {
        Seq::empty()
    })
}

/// The archive: the global magic, then each member in order.
pub open spec fn spec_ar_bytes(ms: Seq<(Seq<char>, Seq<u8>)>) -> Seq<u8>
    decreases ms.len(),
{
    if ms.len() == 0 {
        seq![0x21u8, 0x3cu8, 0x61u8, 0x72u8, 0x63u8, 0x68u8, 0x3eu8, 0x0au8]
    } else {
        spec_ar_bytes(ms.drop_last()) + spec_ar_member_bytes(ms.last())
    }
}

/// Push the text, then spaces up to the field width.
fn push_padded(hdr: &mut Vec<char>, piece: &Vec<char>, width: usize)
    ensures
        final (hdr)@ == old(hdr)@ + spec_pad(piece@, width as int),
{
    let start = hdr.len();
    push_all(hdr, piece);
    proof {
        assert(hdr@ =~= old(hdr)@ + piece@ + spec_spaces(0));
    }
    while hdr.len() - start < width
        invariant
            hdr@.len() >= start + piece@.len(),
            hdr@.len() == start + piece@.len() || hdr@.len() - start <= width,
            start == old(hdr)@.len(),
            hdr@ == old(hdr)@ + piece@ + spec_spaces(hdr@.len() - start - piece@.len()),
        decreases start + width - hdr@.len(),
    {
        hdr.push(' ');
    }
}

/// Push every byte of `src` onto `dst`.
fn push_bytes(dst: &mut Vec<u8>, src: &Vec<u8>)
    ensures
        final (dst)@ == old(dst)@ + src@,
{
    let mut i: usize = 0;
    while i < src.len()
        invariant
            i <= src@.len(),
            dst@ == old(dst)@ + src@.take(i as int),
        decreases src@.len() - i,
    {
        dst.push(src[i]);
        proof {
            assert(old(dst)@ + src@.take(i as int) + seq![src@[i as int]] =~= old(dst)@
                + src@.take(i + 1));
        }
        i = i + 1;
    }
    proof {
        assert(src@.take(src@.len() as int) =~= src@);
    }
}

/// Append one member header.
fn push_header(out: &mut Vec<u8>, name: &Vec<char>, size: u64)
    ensures
        final (out)@ == old(out)@ + spec_ar_header(name@, size as nat),
{
    let mut hdr: Vec<char> = Vec::new();
    let mut named = Vec::new();
    push_all(&mut named, name);
    named.push('/');
    proof {
        assert(named@ =~= name@ + seq!['/']);
    }
    push_padded(&mut hdr, &named, 16);
    let mut zero: Vec<char> = Vec::new();
    zero.push('0');
    proof {
        assert(zero@ =~= seq!['0']);
    }
    push_padded(&mut hdr, &zero, 12);
    push_padded(&mut hdr, &zero, 6);
    push_padded(&mut hdr, &zero, 6);
    let mut mode: Vec<char> = Vec::new();
    mode.push('6');
    mode.push('4');
    mode.push('4');
    proof {
        assert(mode@ =~= seq!['6', '4', '4']);
    }
    push_padded(&mut hdr, &mode, 8);
    let digits = dec_digits(size);
    push_padded(&mut hdr, &digits, 10);
    let mut j: usize = 0;
    let n = hdr.len();
    let ghost text = hdr@;
    proof {
        assert(out@ =~= old(out)@ + spec_ascii_bytes(text.take(0)));
    }
    while j < n
        invariant
            j <= n,
            n == hdr@.len(),
            hdr@ == text,
            out@ == old(out)@ + spec_ascii_bytes(text.take(j as int)),
        decreases n - j,
    {
        let ghost before = out@;
        out.push(#[verifier::truncate] (hdr[j] as u8));
        proof {
            assert(out@ =~= before.push(text[j as int] as u8));
            assert(spec_ascii_bytes(text.take(j + 1)) =~= spec_ascii_bytes(
                text.take(j as int),
            ).push(text[j as int] as u8));
        }
        j = j + 1;
    }
    proof {
        assert(text.take(n as int) =~= text);
        assert(text =~= spec_pad(name@ + seq!['/'], 16) + spec_pad(seq!['0'], 12) + spec_pad(
            seq!['0'],
            6,
        ) + spec_pad(seq!['0'], 6) + spec_pad(seq!['6', '4', '4'], 8) + spec_pad(
            spec_dec(size as nat),
            10,
        ));
    }
    out.push(0x60u8);
    out.push(0x0au8);
    proof {
        assert(out@ =~= old(out)@ + spec_ar_header(name@, size as nat));
    }
}

/// Assemble the outer archive: succeeds exactly when every member fits
/// its fixed-width header, and then yields the exact format — the magic,
/// then each member's header, bytes, and pad, in order.
pub fn ar_archive(members: &Vec<ArMember>) -> (r: Option<Vec<u8>>)
    ensures
        r is Some <==> spec_ar_members_ok(ar_member_views(members@)),
        r matches Some(b) ==> b@ == spec_ar_bytes(ar_member_views(members@)),
{
    let ghost views = ar_member_views(members@);
    let n = members.len();
    let mut i: usize = 0;
    while i < n
        invariant
            i <= n,
            n == members@.len(),
            views == ar_member_views(members@),
            forall|k: int| 0 <= k < i ==> spec_ar_member_ok(#[trigger] views[k]),
        decreases n - i,
    {
        let name = str_chars(members[i].name.as_str());
        if name.len() > 15 {
            proof {
                assert(!spec_ar_member_ok(views[i as int]));
            }
            return None;
        }
        let mut j: usize = 0;
        while j < name.len()
            invariant
                j <= name@.len(),
                name@ == members@[i as int].name@,
                i < members@.len(),
                views == ar_member_views(members@),
                forall|k: int| 0 <= k < j ==> (#[trigger] name@[k]) <= '\u{7f}',
            decreases name@.len() - j,
        {
            if !(name[j] <= '\u{7f}') {
                proof {
                    assert(!spec_ar_member_ok(views[i as int]));
                }
                return None;
            }
            j = j + 1;
        }
        if members[i].data.len() as u64 > AR_SIZE_MAX {
            proof {
                assert(!spec_ar_member_ok(views[i as int]));
            }
            return None;
        }
        proof {
            assert(spec_ar_member_ok(views[i as int]));
        }
        i = i + 1;
    }
    let mut out: Vec<u8> = Vec::new();
    out.push(0x21u8);
    out.push(0x3cu8);
    out.push(0x61u8);
    out.push(0x72u8);
    out.push(0x63u8);
    out.push(0x68u8);
    out.push(0x3eu8);
    out.push(0x0au8);
    proof {
        assert(views.take(0) =~= Seq::<(Seq<char>, Seq<u8>)>::empty());
        assert(out@ =~= spec_ar_bytes(views.take(0)));
    }
    let mut i: usize = 0;
    while i < n
        invariant
            i <= n,
            n == members@.len(),
            views == ar_member_views(members@),
            out@ == spec_ar_bytes(views.take(i as int)),
        decreases n - i,
    {
        proof {
            assert(views.take(i + 1).drop_last() =~= views.take(i as int));
            assert(views.take(i + 1).last() == views[i as int]);
        }
        let ghost before = out@;
        let name = str_chars(members[i].name.as_str());
        push_header(&mut out, &name, members[i].data.len() as u64);
        push_bytes(&mut out, &members[i].data);
        if members[i].data.len() % 2 == 1 {
            out.push(0x0au8);
        }
        proof {
            assert(out@ =~= before + spec_ar_member_bytes(views[i as int]));
        }
        i = i + 1;
    }
    proof {
        assert(views.take(n as int) =~= views);
    }
    Some(out)
}

/// Relies on `blake2::Blake2b` with an 8-byte output size: the digest
/// depends on the input bytes alone and is 8 bytes long.
#[verifier::external_body]
pub fn blake2b8(data: &Vec<u8>) -> (r: Vec<u8>)
    ensures
        r@ == blake2b8_of(data@),
        r@.len() == 8,
{
    let mut h = <blake2::Blake2b<blake2::digest::consts::U8> as blake2::digest::Digest>::new();
    blake2::digest::Digest::update(&mut h, data.as_slice());
    blake2::digest::Digest::finalize(h).to_vec()
}

/// The lower-case hex encoding of a byte sequence, high nibble first.
pub open spec fn spec_hex_of(data: Seq<u8>) -> Seq<char>
    decreases data.len(),
{
    if data.len() == 0 {
        Seq::empty()
    } else {
        spec_hex_of(data.drop_last()) + spec_hex_byte(data.last())
    }
}

/// Render bytes as lower-case hex, high nibble first.
pub fn hex_lower(data: &Vec<u8>) -> (r: String)
    ensures
        r@ == spec_hex_of(data@),
{
    let mut v: Vec<char> = Vec::new();
    let mut i: usize = 0;
    let n = data.len();
    proof {
        assert(v@ =~= spec_hex_of(data@.take(0)));
    }
    while i < n
        invariant
            i <= n,
            n == data@.len(),
            v@ == spec_hex_of(data@.take(i as int)),
        decreases n - i,
    {
        proof {
            assert(data@.take(i + 1).drop_last() =~= data@.take(i as int));
            assert(data@.take(i + 1).last() == data@[i as int]);
        }
        crate::color::push_hex_byte(&mut v, data[i]);
        i = i + 1;
    }
    proof {
        assert(data@.take(n as int) =~= data@);
    }
    crate::strutil::chars_to_string(&v)
}

/// Relies on `deunicode::deunicode`: the transliteration depends on the
/// text alone, and empty text stays empty.
#[verifier::external_body]
pub fn to_ascii(s: &str) -> (r: String)
    ensures
        r@ == ascii_of(s@),
        s@.len() == 0 ==> r@.len() == 0,
{
    deunicode::deunicode(s)
}

/// Relies on `snailquote::escape`: the quoting depends on the text alone.
#[verifier::external_body]
pub fn shell_escape(s: &str) -> (r: String)
    ensures
        r@ == shell_escaped_of(s@),
{
    snailquote::escape(s).into_owned()
}

/// The hex encoding is twice as long as its input and uses only
/// lower-case hex characters.
pub proof fn lemma_hex_of_shape(data: Seq<u8>)
    ensures
        spec_hex_of(data).len() == 2 * data.len(),
        forall|i: int|
            0 <= i < spec_hex_of(data).len() ==> {
                let c = #[trigger] spec_hex_of(data)[i];
                ('0' <= c <= '9') || ('a' <= c <= 'f')
            },
    decreases data.len(),
{
    if data.len() > 0 {
        lemma_hex_of_shape(data.drop_last());
    }
}

} // verus!
