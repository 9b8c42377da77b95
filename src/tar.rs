use vstd::prelude::*;
use vstd::utf8::encode_utf8;

verus! {

pub open spec fn zeros(k: nat) -> Seq<u8> {
    Seq::new(k, |i: int| 0u8)
}

/// `n` in octal with `w` digits, the most significant first, as ASCII.
pub open spec fn octal(n: nat, w: nat) -> Seq<u8>
    decreases w,
{
    if w == 0 {
        Seq::empty()
    } else {
        octal(n / 8, (w - 1) as nat).push((48 + n % 8) as u8)
    }
}

/// The number that a run of ASCII octal digits writes.
pub open spec fn octal_value(s: Seq<u8>) -> nat
    decreases s.len(),
{
    if s.len() == 0 {
        0
    } else {
        octal_value(s.drop_last()) * 8 + (s.last() - 48) as nat
    }
}

pub open spec fn is_octal_digit(b: u8) -> bool {
    48 <= b <= 55
}

/// The largest entry size that an eleven-digit size field holds, plus one.
pub open spec fn size_limit() -> nat {
    0x2_0000_0000
}

/// The sum of a sequence of bytes.
pub open spec fn byte_sum(s: Seq<u8>) -> nat
    decreases s.len(),
{
    if s.len() == 0 {
        0
    } else {
        byte_sum(s.drop_last()) + s.last() as nat
    }
}

/// The header of a one-entry archive for a regular file named `name` of
/// `size` bytes, with `chk` in the place of the checksum: mode 0644, owner
/// and time zero, ustar format.
pub open spec fn header_with(name: Seq<u8>, size: nat, chk: Seq<u8>) -> Seq<u8> {
    name + zeros((100 - name.len()) as nat) + octal(420, 7).push(0) + octal(0, 7).push(0)
        + octal(0, 7).push(0) + octal(size, 11).push(0) + octal(0, 11).push(0) + chk + seq![48u8]
        + zeros(100) + seq![117u8, 115, 116, 97, 114, 0] + seq![48u8, 48] + zeros(247)
}

pub open spec fn blank_checksum() -> Seq<u8> {
    Seq::new(8, |i: int| 32u8)
}

/// The checksum of a header: the sum of its bytes with the checksum field
/// taken as spaces.
pub open spec fn header_checksum(name: Seq<u8>, size: nat) -> nat {
    byte_sum(header_with(name, size, blank_checksum()))
}

pub open spec fn checksum_field(c: nat) -> Seq<u8> {
    octal(c, 6) + seq![0u8, 32u8]
}

/// The header block of a one-entry archive.
pub open spec fn tar_header(name: Seq<u8>, size: nat) -> Seq<u8> {
    header_with(name, size, checksum_field(header_checksum(name, size)))
}

/// The zeros that pad an entry of `size` bytes to whole blocks.
pub open spec fn padding(size: nat) -> nat {
    ((512 - size % 512) % 512) as nat
}

/// What follows the content: its padding and two zero blocks.
pub open spec fn tar_trailer(size: nat) -> Seq<u8> {
    zeros(padding(size) + 1024)
}

/// A one-entry archive that holds `content` under `name`.
pub open spec fn tar_archive(name: Seq<u8>, content: Seq<u8>) -> Seq<u8> {
    tar_header(name, content.len()) + content + tar_trailer(content.len())
}

/// Whether a name and a size fit the fields of a header.
pub open spec fn header_fits(name: Seq<u8>, size: nat) -> bool {
    name.len() <= 100 && size < size_limit()
}

proof fn lemma_octal_len(n: nat, w: nat)
    ensures
        octal(n, w).len() == w,
        forall|i: int| 0 <= i < w ==> is_octal_digit(#[trigger] octal(n, w)[i]),
    decreases w,
{
    if w > 0 {
        lemma_octal_len(n / 8, (w - 1) as nat);
        let s = octal(n / 8, (w - 1) as nat);
        assert forall|i: int| 0 <= i < w implies is_octal_digit(#[trigger] octal(n, w)[i]) by {
            if i < w - 1 {
                assert(octal(n, w)[i] == s[i]);
            }
        }
    }
}

proof fn lemma_pow8(w: nat)
    ensures
        vstd::arithmetic::power::pow(8, w) > 0,
{
    vstd::arithmetic::power::lemma_pow_positive(8, w);
}

proof fn lemma_pow8_values()
    ensures
        vstd::arithmetic::power::pow(8, 10) == 0x4000_0000,
        vstd::arithmetic::power::pow(8, 11) == 0x2_0000_0000,
{
    reveal_with_fuel(vstd::arithmetic::power::pow, 12);
}

/// Reading back `w` octal digits gives the number modulo `8^w`.
proof fn lemma_octal_value(n: nat, w: nat)
    ensures
        octal_value(octal(n, w)) == n % (vstd::arithmetic::power::pow(8, w) as nat),
    decreases w,
{
    lemma_octal_len(n, w);
    lemma_pow8(w);
    if w == 0 {
        assert(vstd::arithmetic::power::pow(8, 0) == 1) by {
            vstd::arithmetic::power::lemma_pow0(8);
        }
    } else {
        let p = vstd::arithmetic::power::pow(8, (w - 1) as nat);
        lemma_pow8((w - 1) as nat);
        lemma_octal_value(n / 8, (w - 1) as nat);
        assert(octal(n, w).drop_last() =~= octal(n / 8, (w - 1) as nat));
        assert(vstd::arithmetic::power::pow(8, w) == 8 * p) by {
            vstd::arithmetic::power::lemma_pow_adds(8, 1, (w - 1) as nat);
            vstd::arithmetic::power::lemma_pow1(8);
        }
        // n = 8 * (n / 8) + n % 8, and (n / 8) % p * 8 + n % 8 == n % (8 * p)
        assert(((n / 8) % (p as nat)) * 8 + n % 8 == n % (8 * p) as nat) by (nonlinear_arith)
            requires
                p > 0,
        {
            vstd::arithmetic::div_mod::lemma_breakdown(n as int, 8, p as int);
        }
    }
}

proof fn lemma_byte_sum_bound(s: Seq<u8>)
    ensures
        byte_sum(s) <= 255 * s.len(),
    decreases s.len(),
{
    if s.len() > 0 {
        lemma_byte_sum_bound(s.drop_last());
    }
}

proof fn lemma_header_len(name: Seq<u8>, size: nat, chk: Seq<u8>)
    requires
        name.len() <= 100,
        chk.len() == 8,
    ensures
        header_with(name, size, chk).len() == 512,
{
    lemma_octal_len(420, 7);
    lemma_octal_len(0, 7);
    lemma_octal_len(size, 11);
    lemma_octal_len(0, 11);
}

/// Appends `k` zero bytes.
fn push_zeros(v: &mut Vec<u8>, k: usize)
    ensures
        final(v)@ == old(v)@ + zeros(k as nat),
{
    let mut i: usize = 0;
    while i < k
        invariant
            i <= k,
            v@ == old(v)@ + zeros(i as nat),
        decreases k - i,
    {
        v.push(0u8);
        i = i + 1;
        assert(v@ =~= old(v)@ + zeros(i as nat));
    }
}

/// Appends `n` in octal with `w` digits.
fn push_octal(v: &mut Vec<u8>, n: u64, w: usize)
    ensures
        final(v)@ == old(v)@ + octal(n as nat, w as nat),
    decreases w,
{
    if w > 0 {
        push_octal(v, n / 8, w - 1);
        v.push((48 + n % 8) as u8);
        assert(v@ =~= old(v)@ + octal(n as nat, w as nat));
    } else {
        assert(v@ =~= old(v)@ + octal(n as nat, w as nat));
    }
}

/// Appends bytes.
fn push_bytes(v: &mut Vec<u8>, s: &[u8])
    ensures
        final(v)@ == old(v)@ + s@,
{
    let mut i: usize = 0;
    while i < s.len()
        invariant
            i <= s@.len(),
            v@ == old(v)@ + s@.take(i as int),
        decreases s@.len() - i,
    {
        v.push(s[i]);
        i = i + 1;
        assert(v@ =~= old(v)@ + s@.take(i as int));
    }
    assert(s@.take(s@.len() as int) =~= s@);
}

fn build_header(name: &[u8], size: u64, chk: &[u8]) -> (r: Vec<u8>)
    requires
        name@.len() <= 100,
        chk@.len() == 8,
    ensures
        r@ == header_with(name@, size as nat, chk@),
{
    let mut v: Vec<u8> = Vec::new();
    push_bytes(&mut v, name);
    push_zeros(&mut v, 100 - name.len());
    push_octal(&mut v, 420, 7);
    v.push(0u8);
    push_octal(&mut v, 0, 7);
    v.push(0u8);
    push_octal(&mut v, 0, 7);
    v.push(0u8);
    push_octal(&mut v, size, 11);
    v.push(0u8);
    push_octal(&mut v, 0, 11);
    v.push(0u8);
    push_bytes(&mut v, chk);
    v.push(48u8);
    push_zeros(&mut v, 100);
    let magic: [u8; 6] = [117u8, 115, 116, 97, 114, 0];
    push_bytes(&mut v, &magic);
    v.push(48u8);
    v.push(48u8);
    push_zeros(&mut v, 247);
    proof {
        assert(magic@ =~= seq![117u8, 115, 116, 97, 114, 0]);
        assert(v@ =~= header_with(name@, size as nat, chk@));
    }
    v
}

fn sum_bytes(s: &Vec<u8>) -> (r: u64)
    requires
        s@.len() <= 512,
    ensures
        r == byte_sum(s@),
{
    let mut total: u64 = 0;
    let mut i: usize = 0;
    while i < s.len()
        invariant
            i <= s@.len() <= 512,
            total == byte_sum(s@.take(i as int)),
        decreases s@.len() - i,
    {
        proof {
            assert(s@.take(i as int + 1).drop_last() =~= s@.take(i as int));
            lemma_byte_sum_bound(s@.take(i as int));
        }
        total = total + s[i] as u64;
        i = i + 1;
    }
    assert(s@.take(s@.len() as int) =~= s@);
    total
}

/// The header block of a one-entry archive for a regular file; refused where
/// the name is longer than 100 bytes or the size does not fit eleven octal digits.
pub fn header_block(name: &[u8], size: u64) -> (r: Result<Vec<u8>, String>)
    ensures
        r is Ok <==> header_fits(name@, size as nat),
        r matches Ok(h) ==> h@ == tar_header(name@, size as nat) && h@.len() == 512,
{
    if name.len() > 100 {
        return Err(String::from_str("file name too long for an archive entry"));
    }
    if size >= 0x2_0000_0000u64 {
        return Err(String::from_str("file too large for an archive entry"));
    }
    let blank: [u8; 8] = [32u8; 8];
    proof {
        assert(blank@ =~= blank_checksum());
    }
    let first = build_header(name, size, &blank);
    proof {
        lemma_header_len(name@, size as nat, blank@);
    }
    let c = sum_bytes(&first);
    proof {
        lemma_byte_sum_bound(first@);
    }
    let mut chk: Vec<u8> = Vec::new();
    push_octal(&mut chk, c, 6);
    chk.push(0u8);
    chk.push(32u8);
    proof {
        assert(chk@ =~= checksum_field(c as nat));
        lemma_octal_len(c as nat, 6);
        lemma_header_len(name@, size as nat, chk@);
    }
    Ok(build_header(name, size, chk.as_slice()))
}

/// The padding and end blocks that close an archive whose entry has `size` bytes.
pub fn trailer_block(size: u64) -> (r: Vec<u8>)
    ensures
        r@ == tar_trailer(size as nat),
{
    let pad: usize = ((512 - size % 512) % 512) as usize;
    let mut v: Vec<u8> = Vec::new();
    push_zeros(&mut v, pad + 1024);
    v
}

/// The size that the header of a raw download gives. The header comes
/// before the file's bytes, so the size must be known from the start; a
/// download of unknown length is refused rather than held in memory whole.
pub fn announced_size(len: Option<u64>) -> (r: Result<u64, String>)
    ensures
        len matches Some(n) ==> r == Ok::<u64, String>(n),
        len is None ==> (r matches Err(t) && t@ == "the download has no length"@),
{
    match len {
        Some(n) => Ok(n),
        None => Err(String::from_str("the download has no length")),
    }
}

/// Wraps a file that arrives in chunks into a one-entry archive: the header
/// first, the chunks as they come, and the trailer once the announced
/// number of bytes has passed.
pub struct TarWrapper {
    size: u64,
    seen: u64,
    name: Ghost<Seq<u8>>,
    content: Ghost<Seq<u8>>,
}

impl TarWrapper {
    pub closed spec fn spec_size(&self) -> nat {
        self.size as nat
    }

    pub closed spec fn spec_name(&self) -> Seq<u8> {
        self.name@
    }

    /// The bytes of the file that have passed so far.
    pub closed spec fn content(&self) -> Seq<u8> {
        self.content@
    }

    pub closed spec fn wf(&self) -> bool {
        &&& self.seen == self.content@.len()
        &&& self.seen <= self.size
    }

    /// A wrapper for a file named `name` of `size` bytes, with the header to
    /// send before the file's bytes.
    pub fn new(name: &String, size: u64) -> (r: Result<(TarWrapper, Vec<u8>), String>)
        ensures
            r is Ok <==> header_fits(encode_utf8(name@), size as nat),
            r matches Ok((w, h)) ==> {
                &&& w.wf()
                &&& w.spec_name() == encode_utf8(name@)
                &&& w.spec_size() == size
                &&& w.content().len() == 0
                &&& h@ == tar_header(encode_utf8(name@), size as nat)
            },
    {
        let bytes = name.as_str().as_bytes();
        match header_block(bytes, size) {
            Err(e) => Err(e),
            Ok(h) => Ok(
                (
                    TarWrapper {
                        size,
                        seen: 0,
                        name: Ghost(encode_utf8(name@)),
                        content: Ghost(Seq::empty()),
                    },
                    h,
                ),
            ),
        }
    }

    /// Passes on the next chunk of the file; more bytes than announced are refused.
    pub fn wrap(&mut self, chunk: Vec<u8>) -> (r: Result<Vec<u8>, String>)
        requires
            old(self).wf(),
        ensures
            final(self).wf(),
            final(self).spec_name() == old(self).spec_name(),
            final(self).spec_size() == old(self).spec_size(),
            old(self).content().len() + chunk@.len() <= old(self).spec_size() ==> {
                &&& r matches Ok(c) && c@ == chunk@
                &&& final(self).content() == old(self).content() + chunk@
            },
            old(self).content().len() + chunk@.len() > old(self).spec_size() ==> {
                &&& r is Err
                &&& final(self).content() == old(self).content()
            },
    {
        if chunk.len() as u64 > self.size - self.seen {
            return Err(String::from_str("more bytes than announced"));
        }
        self.seen = self.seen + chunk.len() as u64;
        self.content = Ghost(self.content@ + chunk@);
        Ok(chunk)
    }

    /// The trailer, once exactly the announced number of bytes has passed.
    pub fn finish(&self) -> (r: Result<Vec<u8>, String>)
        requires
            self.wf(),
        ensures
            r is Ok <==> self.content().len() == self.spec_size(),
            r matches Ok(t) ==> t@ == tar_trailer(self.spec_size()),
    {
        if self.seen != self.size {
            return Err(String::from_str("fewer bytes than announced"));
        }
        Ok(trailer_block(self.size))
    }

    /// The header, the chunks that passed and the trailer make the one-entry
    /// archive of the file.
    pub proof fn lemma_frames_make_archive(&self, header: Seq<u8>, trailer: Seq<u8>)
        requires
            self.wf(),
            self.content().len() == self.spec_size(),
            header == tar_header(self.spec_name(), self.spec_size()),
            trailer == tar_trailer(self.spec_size()),
        ensures
            header + self.content() + trailer == tar_archive(self.spec_name(), self.content()),
    {
    }
}

/// The size that a header's size field gives: eleven octal digits and a NUL
/// or a space.
pub open spec fn header_size(h: Seq<u8>) -> Option<nat> {
    let f = h.subrange(124, 136);
    if (forall|i: int| 0 <= i < 11 ==> is_octal_digit(#[trigger] f[i])) && (f[11] == 0 || f[11] == 32) {
        Some(octal_value(f.take(11)))
    } else {
        None
    }
}

/// Whether a header describes a regular file.
pub open spec fn header_is_file(h: Seq<u8>) -> bool {
    h[156] == 48 || h[156] == 0
}

/// The bytes of the file in an archive that starts with its entry, as far
/// as the archive goes.
pub open spec fn entry_bytes(a: Seq<u8>, size: nat) -> Seq<u8> {
    if a.len() <= 512 {
        Seq::empty()
    } else if a.len() <= 512 + size {
        a.subrange(512, a.len() as int)
    } else {
        a.subrange(512, 512 + size as int)
    }
}

/// Taking the entry of an archive that wraps one file gives back that file.
pub proof fn lemma_unwrap_of_wrap(name: Seq<u8>, content: Seq<u8>)
    requires
        header_fits(name, content.len()),
    ensures
        header_size(tar_archive(name, content).take(512)) == Some(content.len()),
        header_is_file(tar_archive(name, content).take(512)),
        entry_bytes(tar_archive(name, content), content.len()) == content,
{
    let c = header_checksum(name, content.len());
    lemma_header_len(name, content.len(), blank_checksum());
    lemma_byte_sum_bound(header_with(name, content.len(), blank_checksum()));
    lemma_octal_len(c, 6);
    lemma_header_len(name, content.len(), checksum_field(c));
    let h = tar_header(name, content.len());
    let a = tar_archive(name, content);
    assert(a.take(512) =~= h);
    let pre = name + zeros((100 - name.len()) as nat) + octal(420, 7).push(0) + octal(0, 7).push(0)
        + octal(0, 7).push(0);
    lemma_octal_len(420, 7);
    lemma_octal_len(0, 7);
    lemma_octal_len(0, 11);
    lemma_octal_len(content.len(), 11);
    assert(pre.len() == 124);
    let f = octal(content.len(), 11).push(0);
    assert(h.subrange(124, 136) =~= f);
    assert(f.take(11) =~= octal(content.len(), 11));
    lemma_octal_value(content.len(), 11);
    lemma_pow8_values();
    let hf = a.take(512).subrange(124, 136);
    assert(hf == f);
    assert(forall|i: int| 0 <= i < 11 ==> is_octal_digit(#[trigger] hf[i])) by {
        assert forall|i: int| 0 <= i < 11 implies is_octal_digit(#[trigger] hf[i]) by {
            assert(hf[i] == octal(content.len(), 11)[i]);
        }
    }
    assert(hf[11] == 0);
    assert(hf.take(11) == octal(content.len(), 11));
    vstd::arithmetic::div_mod::lemma_small_mod(content.len(), 0x2_0000_0000);
    assert(octal_value(hf.take(11)) == content.len());
    assert(h[156] == 48);
    assert(a.subrange(512, 512 + content.len() as int) =~= content);
}

/// Takes the one file out of an archive that arrives in chunks: it reads
/// the header block, then hands out the file's bytes and drops the rest.
pub struct TarUnwrapper {
    header: Vec<u8>,
    size: Option<u64>,
    emitted: u64,
    archive: Ghost<Seq<u8>>,
    output: Ghost<Seq<u8>>,
}

impl TarUnwrapper {
    /// The bytes of the archive fed in so far.
    pub closed spec fn archive(&self) -> Seq<u8> {
        self.archive@
    }

    /// The bytes of the file handed out so far.
    pub closed spec fn output(&self) -> Seq<u8> {
        self.output@
    }

    /// Whether the header block was read whole and holds a regular file.
    pub open spec fn header_ok(&self) -> bool {
        self.archive().len() >= 512 && header_is_file(self.archive().take(512))
            && header_size(self.archive().take(512)) is Some
    }

    pub closed spec fn wf(&self) -> bool {
        &&& self.archive@.len() < 512 ==> self.header@ == self.archive@ && self.size is None
        &&& self.archive@.len() >= 512 ==> self.header@ == self.archive@.take(512)
        &&& self.size is Some <==> self.header_ok()
        &&& self.size matches Some(s) ==> header_size(self.archive@.take(512)) == Some(s as nat)
            && self.output@ == entry_bytes(self.archive@, s as nat)
            && self.emitted == self.output@.len()
        &&& self.size is None ==> self.output@.len() == 0 && self.emitted == 0
    }

    pub fn new() -> (r: TarUnwrapper)
        ensures
            r.wf(),
            r.archive().len() == 0,
            r.output().len() == 0,
    {
        let r = TarUnwrapper {
            header: Vec::new(),
            size: None,
            emitted: 0,
            archive: Ghost(Seq::empty()),
            output: Ghost(Seq::empty()),
        };
        assert(r.header@ =~= r.archive@);
        r
    }

    /// Reads the size of the header and whether it is a file.
    fn parse_header(h: &Vec<u8>) -> (r: Option<u64>)
        requires
            h@.len() == 512,
        ensures
            r is Some <==> header_is_file(h@) && header_size(h@) is Some,
            r matches Some(s) ==> header_size(h@) == Some(s as nat),
    {
        if h[156] != 48 && h[156] != 0 {
            return None;
        }
        let ghost f = h@.subrange(124, 136);
        proof {
            vstd::arithmetic::power::lemma_pow0(8);
            assert(f.take(0) =~= Seq::<u8>::empty());
        }
        let mut v: u64 = 0;
        let mut i: usize = 0;
        while i < 11
            invariant
                i <= 11,
                h@.len() == 512,
                f == h@.subrange(124, 136),
                forall|j: int| 0 <= j < i ==> is_octal_digit(#[trigger] f[j]),
                v == octal_value(f.take(i as int)),
                v < vstd::arithmetic::power::pow(8, i as nat),
            decreases 11 - i,
        {
            let b = h[124 + i];
            if b < 48 || b > 55 {
                assert(!is_octal_digit(f[i as int]));
                return None;
            }
            proof {
                assert(f.take(i as int + 1).drop_last() =~= f.take(i as int));
                vstd::arithmetic::power::lemma_pow_adds(8, i as nat, 1);
                vstd::arithmetic::power::lemma_pow1(8);
                lemma_pow8_values();
                vstd::arithmetic::power::lemma_pow_increases(8, i as nat, 10);
                assert(v * 8 + 7 < 8 * vstd::arithmetic::power::pow(8, i as nat)) by (nonlinear_arith)
                    requires
                        v < vstd::arithmetic::power::pow(8, i as nat),
                ;
            }
            v = v * 8 + (b - 48) as u64;
            i = i + 1;
        }
        if h[135] != 0 && h[135] != 32 {
            return None;
        }
        Some(v)
    }

    /// Feeds the next chunk of the archive and hands out the file's bytes in
    /// it. Fails once the header block is whole and does not describe a
    /// regular file with a readable size.
    pub fn feed(&mut self, chunk: &Vec<u8>) -> (r: Result<Vec<u8>, String>)
        requires
            old(self).wf(),
        ensures
            final(self).wf(),
            final(self).archive() == old(self).archive() + chunk@,
            r is Err <==> final(self).archive().len() >= 512 && !final(self).header_ok(),
            r matches Ok(out) ==> final(self).output() == old(self).output() + out@,
            final(self).header_ok() ==> final(self).output() == entry_bytes(
                final(self).archive(),
                header_size(final(self).archive().take(512))->Some_0,
            ),
            !final(self).header_ok() ==> final(self).output().len() == 0,
    {
        let ghost a0 = self.archive@;
        let ghost a1 = a0 + chunk@;
        let mut i: usize = 0;
        if self.header.len() < 512 {
            while self.header.len() < 512 && i < chunk.len()
                invariant
                    a0.len() < 512,
                    a1 == a0 + chunk@,
                    i <= chunk@.len(),
                    self.header@ == a1.take(a0.len() + i),
                    self.header@.len() == a0.len() + i,
                    self.header@.len() <= 512,
                    self.size is None,
                    self.output@.len() == 0,
                    self.archive@ == a0,
                    self.emitted == old(self).emitted,
                decreases chunk@.len() - i,
            {
                self.header.push(chunk[i]);
                i = i + 1;
                assert(self.header@ =~= a1.take(a0.len() + i));
            }
            self.archive = Ghost(a1);
            if self.header.len() < 512 {
                assert(a1.take(a0.len() + i) =~= a1);
                return Ok(Vec::new());
            }
            assert(a1.take(512) == self.header@);
            match Self::parse_header(&self.header) {
                None => {
                    return Err(String::from_str("the archive does not start with a regular file"));
                },
                Some(s) => {
                    self.size = Some(s);
                    assert(self.output@ =~= entry_bytes(a0, s as nat));
                },
            }
        } else {
            self.archive = Ghost(a1);
            assert(a1.take(512) =~= a0.take(512));
        }
        let s = match self.size {
            None => {
                return Err(String::from_str("the archive does not start with a regular file"));
            },
            Some(s) => s,
        };
        // chunk[i] sits at offset 512 + emitted of the archive, unless the file is complete
        proof {
            if a0.len() < 512 {
                assert(a0.len() + i == 512);
                assert(self.emitted == 0);
            } else {
                assert(i == 0);
                assert(self.output@ == entry_bytes(a0, s as nat));
                assert(self.emitted <= s);
                if self.emitted < s {
                    assert(a0.len() == 512 + self.emitted);
                }
            }
        }
        let room: u64 = s - self.emitted;
        let avail: usize = chunk.len() - i;
        let k: usize = if (avail as u64) < room {
            avail
        } else {
            room as usize
        };
        let end: usize = i + k;
        let mut out: Vec<u8> = Vec::new();
        let mut j: usize = i;
        while j < end
            invariant
                i <= j <= end,
                end <= chunk@.len(),
                out@ == chunk@.subrange(i as int, j as int),
            decreases end - j,
        {
            out.push(chunk[j]);
            j = j + 1;
            assert(out@ =~= chunk@.subrange(i as int, j as int));
        }
        let ghost before = self.output@;
        self.emitted = self.emitted + k as u64;
        self.output = Ghost(before + out@);
        proof {
            if k > 0 {
                assert(a0.len() + i == 512 + before.len());
                assert(before == a1.subrange(512, 512 + before.len() as int));
                assert(self.output@ =~= a1.subrange(512, 512 + before.len() as int + k as int));
            }
            assert(self.output@ =~= entry_bytes(a1, s as nat));
        }
        Ok(out)
    }

    /// Succeeds once the whole file has been handed out.
    pub fn finish(&self) -> (r: Result<(), String>)
        requires
            self.wf(),
        ensures
            r is Ok <==> self.header_ok() && header_size(self.archive().take(512)) == Some(
                self.output().len(),
            ),
    {
        match self.size {
            None => Err(String::from_str("the archive holds no complete file")),
            Some(s) => {
                if self.emitted == s {
                    Ok(())
                } else {
                    Err(String::from_str("the archive holds no complete file"))
                }
            },
        }
    }
}

} // verus!
