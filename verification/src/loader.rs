//! Headers of PE executable images, and the plan for loading their
//! sections. Addresses are those of the 32-bit kernel: header words are
//! 32 bits wide, little-endian.
use vstd::prelude::*;
use crate::bytes::{bytes_eq, le_u16, le_u32, read_u16_le, read_u32_le};
use crate::fs::file_manager::{first_nul, lemma_first_nul};

verus! {

/// Bytes of a page.
pub const PAGE_SIZE: usize = 4096;
/// The page-table bit that makes a page writable.
pub const PA_RW: usize = 2;
/// The NT header signature, "PE\0\0".
pub const NT_SIG: usize = 0x4550;
/// Bytes of the DOS header.
pub const DOS_HEADER_SIZE: usize = 64;
/// Bytes of the NT header (signature, file header, 32-bit optional header).
pub const NT_HEADER_SIZE: usize = 248;
/// Bytes of a section header.
pub const SECTION_HEADER_SIZE: usize = 40;

#[derive(Clone, Copy, Debug)]
pub struct FileHeader {
    pub machine: u16,
    pub section_count: u16,
    pub timestamp: usize,
    pub sym_table_addr: usize,
    pub symbol_count: usize,
    pub optional_header_len: u16,
    pub characteristics: u16,
}

#[derive(Clone, Copy, Debug)]
pub struct DataDirectory {
    pub vaddr: usize,
    pub len: usize,
}

/// The fields of the 32-bit optional header the loader reads.
#[derive(Clone, Copy, Debug)]
pub struct OptionalHeader32 {
    pub entry: usize,
    pub code_base: usize,
    pub data_base: usize,
    pub image_base: usize,
    pub stack_size: usize,
    pub heap_size: usize,
    pub data_dir: [DataDirectory; 16],
}

#[derive(Clone, Copy, Debug)]
pub struct NTHeader {
    pub sig: usize,
    pub file_header: FileHeader,
    pub opt_header: OptionalHeader32,
}

/// The fields of a section header the loader reads.
#[derive(Clone, Copy, Debug)]
pub struct SectionHeader {
    pub name: [u8; 8],
    pub vsize: usize,
    pub vaddr: usize,
    pub raw_data_addr: usize,
}

/// What the loader learned of an image.
pub struct PEParser {
    pub entry: usize,
    pub text: usize,
    pub text_len: usize,
    pub data: usize,
    pub data_len: usize,
    pub stack_size: usize,
    pub heap_size: usize,
    pub pe_addr: usize,
    pub nt_header: Option<NTHeader>,
    pub section_headers: Option<Vec<SectionHeader>>,
}

/// The 32-bit word at `off`.
pub open spec fn w32(s: Seq<u8>, off: int) -> usize {
    le_u32(s, off) as usize
}

fn read_w32(s: &[u8], off: usize) -> (r: usize)
    requires
        off + 4 <= s@.len(),
    ensures
        r == w32(s@, off as int),
        r < 0x1_0000_0000,
{
    read_u32_le(s, off) as usize
}

/// `h` is the NT header stored in `s`.
pub open spec fn nt_decodes(h: NTHeader, s: Seq<u8>) -> bool {
    &&& h.sig == w32(s, 0)
    &&& h.file_header.machine == le_u16(s, 4) as u16
    &&& h.file_header.section_count == le_u16(s, 6) as u16
    &&& h.file_header.timestamp == w32(s, 8)
    &&& h.file_header.sym_table_addr == w32(s, 12)
    &&& h.file_header.symbol_count == w32(s, 16)
    &&& h.file_header.optional_header_len == le_u16(s, 20) as u16
    &&& h.file_header.characteristics == le_u16(s, 22) as u16
    &&& h.opt_header.entry == w32(s, 40)
    &&& h.opt_header.code_base == w32(s, 44)
    &&& h.opt_header.data_base == w32(s, 48)
    &&& h.opt_header.image_base == w32(s, 52)
    &&& h.opt_header.stack_size == w32(s, 100)
    &&& h.opt_header.heap_size == w32(s, 108)
    &&& forall|k: int| 0 <= k < 16 ==> (#[trigger] h.opt_header.data_dir[k]).vaddr == w32(s, 120 + 8 * k)
        && h.opt_header.data_dir[k].len == w32(s, 124 + 8 * k)
}

/// `h` is the section header stored at `off` in `s`.
pub open spec fn section_decodes(h: SectionHeader, s: Seq<u8>, off: int) -> bool {
    &&& h.name@ == s.subrange(off, off + 8)
    &&& h.vsize == w32(s, off + 8)
    &&& h.vaddr == w32(s, off + 12)
    &&& h.raw_data_addr == w32(s, off + 20)
}

impl NTHeader {
    pub fn from_bytes(s: &[u8]) -> (h: NTHeader)
        requires
            s@.len() >= NT_HEADER_SIZE,
        ensures
            nt_decodes(h, s@),
            h.opt_header.entry < 0x1_0000_0000,
            h.opt_header.code_base < 0x1_0000_0000,
            h.opt_header.data_base < 0x1_0000_0000,
            h.opt_header.image_base < 0x1_0000_0000,
    {
        let n = s.len();
        let mut dirs = [DataDirectory { vaddr: 0, len: 0 }; 16];
        let mut k: usize = 0;
        while k < 16
            invariant
                k <= 16,
                n == s@.len(),
                s@.len() >= NT_HEADER_SIZE,
                forall|j: int| 0 <= j < k ==> (#[trigger] dirs[j]).vaddr == w32(s@, 120 + 8 * j)
                    && dirs[j].len == w32(s@, 124 + 8 * j),
            decreases 16 - k,
        {
            dirs[k] = DataDirectory { vaddr: read_w32(s, 120 + 8 * k), len: read_w32(s, 124 + 8 * k) };
            k = k + 1;
        }
        NTHeader {
            sig: read_w32(s, 0),
            file_header: FileHeader {
                machine: read_u16_le(s, 4),
                section_count: read_u16_le(s, 6),
                timestamp: read_w32(s, 8),
                sym_table_addr: read_w32(s, 12),
                symbol_count: read_w32(s, 16),
                optional_header_len: read_u16_le(s, 20),
                characteristics: read_u16_le(s, 22),
            },
            opt_header: OptionalHeader32 {
                entry: read_w32(s, 40),
                code_base: read_w32(s, 44),
                data_base: read_w32(s, 48),
                image_base: read_w32(s, 52),
                stack_size: read_w32(s, 100),
                heap_size: read_w32(s, 108),
                data_dir: dirs,
            },
        }
    }
}

impl SectionHeader {
    pub fn from_bytes(s: &[u8], off: usize) -> (h: SectionHeader)
        requires
            off + SECTION_HEADER_SIZE <= s@.len(),
        ensures
            section_decodes(h, s@, off as int),
    {
        let n = s.len();
        let mut name = [0u8; 8];
        let mut k: usize = 0;
        while k < 8
            invariant
                k <= 8,
                n == s@.len(),
                off + SECTION_HEADER_SIZE <= s@.len(),
                forall|j: int| 0 <= j < k ==> #[trigger] name@[j] == s@[off + j],
            decreases 8 - k,
        {
            name[k] = s[off + k];
            k = k + 1;
        }
        assert(name@ =~= s@.subrange(off as int, off + 8));
        SectionHeader {
            name,
            vsize: read_w32(s, off + 8),
            vaddr: read_w32(s, off + 12),
            raw_data_addr: read_w32(s, off + 20),
        }
    }

    /// The section name without its zero padding.
    pub fn name_stripped(&self) -> (r: &[u8])
        ensures
            r@ == stripped(self.name@),
    {
        proof { lemma_first_nul(self.name@, 0); }
        let mut end: usize = 0;
        while end < 8
            invariant
                end <= 8,
                first_nul(self.name@, 0) == first_nul(self.name@, end as int),
            ensures
                end <= 8,
                first_nul(self.name@, 0) == first_nul(self.name@, end as int),
                end < 8 ==> self.name@[end as int] == 0,
            decreases 8 - end,
        {
            if self.name[end] == 0 {
                break;
            }
            end = end + 1;
        }
        proof { lemma_first_nul(self.name@, end as int); }
        let s = self.name.as_slice();
        assert(s@ == self.name@);
        let r = vstd::slice::slice_subrange(s, 0, end);
        assert(r@ =~= stripped(self.name@));
        r
    }
}

/// A name without its zero padding: the bytes before the first zero byte,
/// or all of them.
pub open spec fn stripped(s: Seq<u8>) -> Seq<u8> {
    match first_nul(s, 0) {
        Some(j) => s.take(j),
        None => s,
    }
}

/// The sections the loader fills: code (unless shared), data, read-only
/// data and zero-filled data.
pub open spec fn wanted_name(n: Seq<u8>, skip_text: bool) -> bool {
    ||| !skip_text && n == seq![46u8, 116u8, 101u8, 120u8, 116u8]
    ||| n == seq![46u8, 100u8, 97u8, 116u8, 97u8]
    ||| n == seq![46u8, 114u8, 100u8, 97u8, 116u8, 97u8]
    ||| n == seq![46u8, 114u8, 111u8, 100u8, 97u8, 116u8, 97u8]
    ||| n == seq![46u8, 98u8, 115u8, 115u8]
}

/// Indices of the wanted sections among the first `k`, in order.
pub open spec fn wanted_indices(secs: Seq<SectionHeader>, skip_text: bool, k: int) -> Seq<usize>
    decreases k,
{
    if k <= 0 {
        Seq::empty()
    } else {
        let prev = wanted_indices(secs, skip_text, k - 1);
        if wanted_name(stripped(secs[k - 1].name@), skip_text) {
            prev.push((k - 1) as usize)
        } else {
            prev
        }
    }
}

proof fn lemma_wanted_indices_in_range(secs: Seq<SectionHeader>, skip_text: bool, k: int)
    requires
        k <= secs.len(),
        secs.len() <= usize::MAX,
    ensures
        forall|j: int| 0 <= j < wanted_indices(secs, skip_text, k).len()
            ==> #[trigger] wanted_indices(secs, skip_text, k)[j] < secs.len()
                && wanted_name(stripped(secs[wanted_indices(secs, skip_text, k)[j] as int].name@), skip_text),
    decreases k,
{
    if k > 0 {
        lemma_wanted_indices_in_range(secs, skip_text, k - 1);
        let prev = wanted_indices(secs, skip_text, k - 1);
        assert forall|j: int| 0 <= j < wanted_indices(secs, skip_text, k).len()
            implies #[trigger] wanted_indices(secs, skip_text, k)[j] < secs.len()
                && wanted_name(stripped(secs[wanted_indices(secs, skip_text, k)[j] as int].name@), skip_text) by {
            if j < prev.len() {
                assert(prev[j] < secs.len());
            } else {
                assert(wanted_indices(secs, skip_text, k)[j] == (k - 1) as usize);
                assert(((k - 1) as usize) as int == k - 1);
            }
        }
    }
}

fn is_wanted(n: &[u8], skip_text: bool) -> (r: bool)
    ensures
        r == wanted_name(n@, skip_text),
{
    let text: [u8; 5] = [46, 116, 101, 120, 116];
    let data: [u8; 5] = [46, 100, 97, 116, 97];
    let rdata: [u8; 6] = [46, 114, 100, 97, 116, 97];
    let rodata: [u8; 7] = [46, 114, 111, 100, 97, 116, 97];
    let bss: [u8; 4] = [46, 98, 115, 115];
    assert(text@ =~= seq![46u8, 116u8, 101u8, 120u8, 116u8]);
    assert(data@ =~= seq![46u8, 100u8, 97u8, 116u8, 97u8]);
    assert(rdata@ =~= seq![46u8, 114u8, 100u8, 97u8, 116u8, 97u8]);
    assert(rodata@ =~= seq![46u8, 114u8, 111u8, 100u8, 97u8, 116u8, 97u8]);
    assert(bss@ =~= seq![46u8, 98u8, 115u8, 115u8]);
    (!skip_text && bytes_eq(n, text.as_slice())) || bytes_eq(n, data.as_slice())
        || bytes_eq(n, rdata.as_slice()) || bytes_eq(n, rodata.as_slice()) || bytes_eq(n, bss.as_slice())
}

/// The image described by an NT header and its section headers: code,
/// data, stack and heap sizes and the entry point, in 32-bit addresses.
pub open spec fn layout_ok(h: NTHeader) -> bool {
    let o = h.opt_header;
    &&& o.image_base + o.code_base < 0x1_0000_0000
    &&& o.code_base <= o.data_base
    &&& o.image_base + o.data_base < 0x1_0000_0000
    &&& o.data_base <= o.data_dir[1].vaddr
    &&& o.image_base + o.entry < 0x1_0000_0000
}

/// The NT header stored in `nt` is a PE header whose address arithmetic
/// stays within 32 bits.
pub open spec fn load_ok(nt: Seq<u8>) -> bool {
    w32(nt, 0) == NT_SIG ==> {
        let base = w32(nt, 52);
        let code = w32(nt, 44);
        let data = w32(nt, 48);
        &&& base + code < 0x1_0000_0000
        &&& code <= data
        &&& base + data < 0x1_0000_0000
        &&& data <= w32(nt, 128)
        &&& base + w32(nt, 40) < 0x1_0000_0000
    }
}

/// Where the pages and sections of an image go.
pub struct RelocationPlan {
    /// Page frames of the code made writable while loading (and the frames
    /// made read-only again afterwards: `0..text_pages`); none for shared
    /// code.
    pub writable: Option<(usize, usize)>,
    pub text_pages: usize,
    /// Regions zeroed: start address and length rounded up to whole pages.
    pub zero: Vec<(usize, usize)>,
    /// Sections read from the file: destination, length, file offset.
    pub copy: Vec<(usize, usize, usize)>,
}

impl PEParser {
    /// A parser that has read nothing.
    pub fn new() -> (r: PEParser)
        ensures
            r.entry == 0 && r.text == 0 && r.text_len == 0 && r.data == 0 && r.data_len == 0,
            r.stack_size == 0 && r.heap_size == 0 && r.pe_addr == 0,
            r.nt_header is None && r.section_headers is None,
    {
        PEParser {
            entry: 0,
            text: 0,
            text_len: 0,
            data: 0,
            data_len: 0,
            stack_size: 0,
            heap_size: 0,
            pe_addr: 0,
            nt_header: None,
            section_headers: None,
        }
    }

    /// Offset of the NT header in the file, from the DOS header.
    pub fn nt_header_offset(dos: &[u8]) -> (r: usize)
        requires
            dos@.len() >= DOS_HEADER_SIZE,
        ensures
            r == w32(dos@, 60),
    {
        read_w32(dos, 60)
    }

    /// Sections announced by an NT header.
    pub fn section_count(nt: &[u8]) -> (r: usize)
        requires
            nt@.len() >= NT_HEADER_SIZE,
        ensures
            r == le_u16(nt@, 6),
    {
        read_u16_le(nt, 6) as usize
    }

    /// Takes in the NT header `nt` and the section headers `sections` read
    /// after it. An image without the PE signature is refused (`false`,
    /// nothing learned). Otherwise code, data, stack, heap and entry are
    /// computed from the optional header.
    pub fn load(&mut self, nt: &[u8], sections: &[u8]) -> (ok: bool)
        requires
            nt@.len() >= NT_HEADER_SIZE,
            w32(nt@, 0) == NT_SIG ==> sections@.len() >= SECTION_HEADER_SIZE * le_u16(nt@, 6),
            load_ok(nt@),
        ensures
            ok == (w32(nt@, 0) == NT_SIG),
            !ok ==> *final(self) == *old(self),
            ok ==> ({
                let h = final(self).nt_header.unwrap();
                let o = h.opt_header;
                &&& final(self).nt_header is Some
                &&& nt_decodes(h, nt@)
                &&& final(self).section_headers matches Some(v) && v@.len() == le_u16(nt@, 6)
                    && forall|k: int| 0 <= k < v@.len() ==> section_decodes(#[trigger] v@[k], sections@, 40 * k)
                &&& final(self).text == o.image_base + o.code_base
                &&& final(self).text_len == o.data_base - o.code_base
                &&& final(self).data == o.image_base + o.data_base
                &&& final(self).data_len == o.data_dir[1].vaddr - o.data_base
                &&& final(self).stack_size == o.stack_size
                &&& final(self).heap_size == o.heap_size
                &&& final(self).entry == o.image_base + o.entry
                &&& final(self).pe_addr == old(self).pe_addr
            }),
    {
        let h = NTHeader::from_bytes(nt);
        if h.sig != NT_SIG {
            return false;
        }
        let count = h.file_header.section_count as usize;
        let slen = sections.len();
        let mut secs: Vec<SectionHeader> = Vec::new();
        let mut k: usize = 0;
        while k < count
            invariant
                k <= count,
                count == le_u16(nt@, 6),
                slen == sections@.len(),
                sections@.len() >= SECTION_HEADER_SIZE * count,
                secs@.len() == k,
                forall|j: int| 0 <= j < k ==> section_decodes(#[trigger] secs@[j], sections@, 40 * j),
            decreases count - k,
        {
            assert(40 * k + 40 <= 40 * count) by (nonlinear_arith) requires k < count;
            secs.push(SectionHeader::from_bytes(sections, 40 * k));
            k = k + 1;
        }
        let o = h.opt_header;
        self.text = o.image_base + o.code_base;
        self.text_len = o.data_base - o.code_base;
        self.data = o.image_base + o.data_base;
        self.data_len = o.data_dir[1].vaddr - o.data_base;
        self.stack_size = o.stack_size;
        self.heap_size = o.heap_size;
        self.entry = o.image_base + o.entry;
        self.nt_header = Some(h);
        self.section_headers = Some(secs);
        true
    }

    /// Where loading the image puts its pages and sections: the code pages
    /// made writable while loading (unless the code is shared), each wanted
    /// section's pages zeroed and its bytes read from the file.
    pub fn relocation_plan(&self, shared_text: bool) -> (r: RelocationPlan)
        requires
            self.nt_header is Some,
            self.section_headers is Some,
            self.text / 4096 + self.text_len / 4096 <= usize::MAX,
            forall|j: int| 0 <= j < self.section_headers.unwrap()@.len()
                && wanted_name(stripped(self.section_headers.unwrap()@[j].name@), shared_text) ==> {
                let sec = #[trigger] self.section_headers.unwrap()@[j];
                &&& self.nt_header.unwrap().opt_header.image_base + sec.vaddr <= usize::MAX
                &&& sec.vsize + PAGE_SIZE <= usize::MAX
            },
        ensures
            ({
                let secs = self.section_headers.unwrap()@;
                let base = self.nt_header.unwrap().opt_header.image_base;
                let want = wanted_indices(secs, shared_text, secs.len() as int);
                &&& r.text_pages == self.text_len / 4096
                &&& r.writable == if shared_text {
                    None::<(usize, usize)>
                } else {
                    Some(((self.text / 4096) as usize, (self.text / 4096 + self.text_len / 4096) as usize))
                }
                &&& r.zero@.len() == want.len()
                &&& r.copy@.len() == want.len()
                &&& forall|k: int| 0 <= k < want.len() ==> {
                    let sec = secs[want[k] as int];
                    &&& (#[trigger] r.zero@[k]).0 == base + sec.vaddr
                    &&& r.zero@[k].1 == (sec.vsize + 4095) / 4096 * 4096
                    &&& r.copy@[k] == (r.zero@[k].0, sec.vsize, sec.raw_data_addr)
                }
            }),
    {
        let t = self.text;
        let tl = self.text_len;
        let text_begin_pfn = t >> 12;
        let text_pages = tl >> 12;
        assert(t >> 12 == t / 4096) by (bit_vector);
        assert(tl >> 12 == tl / 4096) by (bit_vector);
        let text_end_pfn = text_begin_pfn + text_pages;
        let writable = if !shared_text { Some((text_begin_pfn, text_end_pfn)) } else { None };
        let base = match &self.nt_header {
            Some(h) => h.opt_header.image_base,
            None => {
                proof { assert(false); }
                0
            },
        };
        let want = self.wanted_sections(shared_text);
        let secs = match &self.section_headers {
            Some(v) => v,
            None => {
                proof { assert(false); }
                return RelocationPlan { writable, text_pages, zero: Vec::new(), copy: Vec::new() };
            },
        };
        let nsecs = secs.len();
        proof { lemma_wanted_indices_in_range(secs@, shared_text, secs@.len() as int); }
        let mut zero: Vec<(usize, usize)> = Vec::new();
        let mut copy: Vec<(usize, usize, usize)> = Vec::new();
        let mut k: usize = 0;
        while k < want.len()
            invariant
                k <= want@.len(),
                *secs == self.section_headers.unwrap(),
                base == self.nt_header.unwrap().opt_header.image_base,
                want@ == wanted_indices(secs@, shared_text, secs@.len() as int),
                forall|j: int| 0 <= j < want@.len() ==> #[trigger] want@[j] < secs@.len()
                    && wanted_name(stripped(secs@[want@[j] as int].name@), shared_text),
                forall|j: int| 0 <= j < secs@.len() && wanted_name(stripped(secs@[j].name@), shared_text) ==> {
                    let sec = #[trigger] secs@[j];
                    &&& base + sec.vaddr <= usize::MAX
                    &&& sec.vsize + PAGE_SIZE <= usize::MAX
                },
                zero@.len() == k,
                copy@.len() == k,
                forall|j: int| 0 <= j < k ==> {
                    let sec = secs@[want@[j] as int];
                    &&& (#[trigger] zero@[j]).0 == base + sec.vaddr
                    &&& zero@[j].1 == (sec.vsize + 4095) / 4096 * 4096
                    &&& copy@[j] == (zero@[j].0, sec.vsize, sec.raw_data_addr)
                },
            decreases want@.len() - k,
        {
            let sec = secs[want[k]];
            let vstart = base + sec.vaddr;
            let pages = (sec.vsize + PAGE_SIZE - 1) / PAGE_SIZE;
            assert(pages * 4096 <= sec.vsize + 4095) by (nonlinear_arith)
                requires pages == (sec.vsize + 4095) / 4096;
            let len = pages * PAGE_SIZE;
            zero.push((vstart, len));
            copy.push((vstart, sec.vsize, sec.raw_data_addr));
            k = k + 1;
        }
        RelocationPlan { writable, text_pages, zero, copy }
    }

    /// Indices of the sections to fill, in header order: code (unless
    /// `skip_text`), data, read-only data and zero-filled data.
    pub fn wanted_sections(&self, skip_text: bool) -> (r: Vec<usize>)
        requires
            self.section_headers is Some,
        ensures
            r@ == wanted_indices(self.section_headers.unwrap()@, skip_text, self.section_headers.unwrap()@.len() as int),
    {
        let secs = match &self.section_headers {
            Some(v) => v,
            None => {
                proof { assert(false); }
                return Vec::new();
            },
        };
        let mut r: Vec<usize> = Vec::new();
        let mut k: usize = 0;
        while k < secs.len()
            invariant
                k <= secs@.len(),
                *secs == self.section_headers.unwrap(),
                r@ == wanted_indices(secs@, skip_text, k as int),
            decreases secs@.len() - k,
        {
            let n = secs[k].name_stripped();
            if is_wanted(n, skip_text) {
                r.push(k);
            }
            k = k + 1;
        }
        r
    }
}

} // verus!
