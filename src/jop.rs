use vstd::prelude::*;
use crate::helper::{JopcallError, find_in, matches_at, no_match_in};
use crate::image::{u16_at, u32_at, read_u16, read_u32};

verus! {

/// Offset of the field that holds the offset of the NT headers.
pub const NT_OFFSET_FIELD: u64 = 0x3C;

/// Offset, within the NT headers, of the section count.
pub const SECTION_COUNT_FIELD: u64 = 0x06;

/// Offset, within the NT headers, of the first section header.
pub const SECTION_TABLE: u64 = 0x108;

/// Size of one section header.
pub const SECTION_HEADER_SIZE: u64 = 0x28;

/// Characteristics flag of a section whose memory may be executed.
pub const SECTION_MEM_EXECUTE: u32 = 0x20000000;

/// One section of a module, as its header gives it.
#[derive(Clone, Copy, Debug, PartialEq, Eq, Structural)]
pub struct MemorySection {
    /// Size of the section's data in bytes.
    pub virtual_size: u32,
    /// Offset of the section from the module's base.
    pub rva: u32,
    /// The section's characteristics flags.
    pub characteristics: u32,
}

impl MemorySection {
    /// The section's memory may be executed.
    pub open spec fn executable(self) -> bool {
        self.characteristics & SECTION_MEM_EXECUTE != 0
    }

    /// The section lies inside an image of `len` bytes.
    pub open spec fn within(self, len: int) -> bool {
        self.rva as int + self.virtual_size as int <= len
    }

    /// The section's bytes within `img`.
    pub open spec fn memory(self, img: Seq<u8>) -> Seq<u8> {
        img.subrange(self.rva as int, self.rva as int + self.virtual_size as int)
    }
}

/// Offset of the NT headers, as the image's header gives it.
pub open spec fn nt_headers(img: Seq<u8>) -> Option<u32> {
    u32_at(img, NT_OFFSET_FIELD as int)
}

/// The header of section `k` of an image whose NT headers stand at `nt`.
pub open spec fn section_header_at(img: Seq<u8>, nt: int, k: int) -> Option<MemorySection> {
    let h = nt + SECTION_TABLE + SECTION_HEADER_SIZE * k;
    match (u32_at(img, h + 0x0C), u32_at(img, h + 0x10), u32_at(img, h + 0x24)) {
        (Some(rva), Some(size), Some(ch)) => Some(
            MemorySection { virtual_size: size, rva: rva, characteristics: ch },
        ),
        _ => None,
    }
}

/// The number of section headers that a buffer of `cap` entries receives,
/// if the image's headers can be read that far.
pub open spec fn readable_sections(img: Seq<u8>, cap: int) -> Option<int> {
    match nt_headers(img) {
        Some(nt) => match u16_at(img, nt + SECTION_COUNT_FIELD) {
            Some(n) => {
                let c = if (n as int) < cap {
                    n as int
                } else {
                    cap
                };
                if forall|k: int| 0 <= k < c ==> (#[trigger] section_header_at(img, nt as int, k)) is Some {
                    Some(c)
                } else {
                    None
                }
            },
            None => None,
        },
        None => None,
    }
}

/// Fills `section_buffer` from the front with the image's section headers, as
/// many as the image has or the buffer holds, and returns how many. An image
/// whose headers lie partly outside it gives `InvalidAddress`, with the buffer
/// unchanged.
pub fn get_image_memory_sections(img: &[u8], section_buffer: &mut Vec<MemorySection>) -> (r:
    Result<usize, JopcallError>)
    ensures
        final(section_buffer)@.len() == old(section_buffer)@.len(),
        readable_sections(img@, old(section_buffer)@.len() as int) matches Some(c) ==> r == Ok::<usize, JopcallError>(
            c as usize,
        ),
        readable_sections(img@, old(section_buffer)@.len() as int) is None ==> r == Err::<
            usize,
            JopcallError,
        >(JopcallError::InvalidAddress) && final(section_buffer)@ == old(section_buffer)@,
        r matches Ok(c) ==> (forall|k: int|
            0 <= k < c ==> section_header_at(img@, nt_headers(img@)->0 as int, k) == Some(
                #[trigger] final(section_buffer)@[k],
            )) && (forall|k: int|
            c <= k < old(section_buffer)@.len() ==> #[trigger] final(section_buffer)@[k] == old(
                section_buffer,
            )@[k]),
{
    let nt = match read_u32(img, NT_OFFSET_FIELD) {
        Some(v) => v,
        None => return Err(JopcallError::InvalidAddress),
    };
    let n = match read_u16(img, nt as u64 + SECTION_COUNT_FIELD) {
        Some(v) => v,
        None => return Err(JopcallError::InvalidAddress),
    };
    let cap = section_buffer.len();
    let count: usize = if (n as usize) < cap {
        n as usize
    } else {
        cap
    };
    let mut found: Vec<MemorySection> = Vec::new();
    let mut k: usize = 0;
    while k < count
        invariant
            nt_headers(img@) == Some(nt),
            u16_at(img@, nt + SECTION_COUNT_FIELD) == Some(n),
            count == if (n as int) < cap { n as int } else { cap as int },
            cap == old(section_buffer)@.len(),
            section_buffer@ == old(section_buffer)@,
            count <= n,
            k <= count,
            found@.len() == k,
            forall|j: int| 0 <= j < k ==> section_header_at(img@, nt as int, j) == Some(#[trigger] found@[j]),
        decreases count - k,
    {
        let h: u64 = nt as u64 + SECTION_TABLE + SECTION_HEADER_SIZE * (k as u64);
        let rva = read_u32(img, h + 0x0C);
        let size = read_u32(img, h + 0x10);
        let ch = read_u32(img, h + 0x24);
        match (rva, size, ch) {
            (Some(rva), Some(size), Some(ch)) => {
                found.push(MemorySection { virtual_size: size, rva: rva, characteristics: ch });
            },
            _ => {
                assert(section_header_at(img@, nt as int, k as int) is None);
                assert(readable_sections(img@, cap as int) is None);
                return Err(JopcallError::InvalidAddress);
            },
        }
        k = k + 1;
    }
    let mut j: usize = 0;
    while j < count
        invariant
            nt_headers(img@) == Some(nt),
            u16_at(img@, nt + SECTION_COUNT_FIELD) == Some(n),
            count == if (n as int) < cap { n as int } else { cap as int },
            forall|t: int| 0 <= t < count ==> section_header_at(img@, nt as int, t) == Some(#[trigger] found@[t]),
            count <= cap,
            cap == old(section_buffer)@.len(),
            found@.len() == count,
            j <= count,
            section_buffer@.len() == cap,
            forall|t: int| 0 <= t < j ==> section_buffer@[t] == found@[t],
            forall|t: int| j <= t < cap ==> section_buffer@[t] == old(section_buffer)@[t],
        decreases count - j,
    {
        section_buffer.set(j, found[j]);
        j = j + 1;
    }
    assert forall|t: int| 0 <= t < count implies (#[trigger] section_header_at(
        img@,
        nt as int,
        t,
    )) is Some by {
        assert(section_header_at(img@, nt as int, t) == Some(found@[t]));
    }
    assert(readable_sections(img@, cap as int) == Some(count as int));
    assert forall|t: int| 0 <= t < count implies section_header_at(
        img@,
        nt_headers(img@)->0 as int,
        t,
    ) == Some(#[trigger] section_buffer@[t]) by {
        assert(section_buffer@[t] == found@[t]);
    }
    Ok(count)
}

/// Offsets of the non-overlapping matches of `pat` in `mem` from `pos` on,
/// taken left to right: after a match the search resumes past its end.
pub open spec fn greedy_scan(mem: Seq<u8>, pat: Seq<u8>, pos: int) -> Seq<int>
    decreases mem.len() - pos,
{
    if pat.len() == 0 || pos < 0 || pos + pat.len() > mem.len() {
        Seq::empty()
    } else if matches_at(mem, pat, pos) {
        seq![pos] + greedy_scan(mem, pat, pos + pat.len())
    } else {
        greedy_scan(mem, pat, pos + 1)
    }
}

proof fn lemma_scan_skip(mem: Seq<u8>, pat: Seq<u8>, pos: int, i: int)
    requires
        pat.len() > 0,
        0 <= pos <= i,
        no_match_in(mem, pat, pos, i),
    ensures
        greedy_scan(mem, pat, pos) == greedy_scan(mem, pat, i),
    decreases i - pos,
{
    if pos < i {
        lemma_scan_skip(mem, pat, pos + 1, i);
        if pos + pat.len() > mem.len() {
            lemma_scan_empty_beyond(mem, pat, i);
        }
    }
}

proof fn lemma_scan_empty_beyond(mem: Seq<u8>, pat: Seq<u8>, pos: int)
    requires
        pat.len() > 0,
        pos + pat.len() > mem.len(),
    ensures
        greedy_scan(mem, pat, pos) == Seq::<int>::empty(),
{
}

/// The addresses of the gadgets that one section yields: those of the matches
/// in its memory if it is executable, none otherwise.
pub open spec fn section_gadgets(img: Seq<u8>, pat: Seq<u8>, base: int, s: MemorySection) -> Seq<
    int,
> {
    if s.executable() {
        greedy_scan(s.memory(img), pat, 0).map_values(|off: int| base + s.rva + off)
    } else {
        Seq::empty()
    }
}

/// The gadgets of the first `n` sections, in section order.
pub open spec fn all_gadgets(
    img: Seq<u8>,
    pat: Seq<u8>,
    base: int,
    secs: Seq<MemorySection>,
    n: int,
) -> Seq<int>
    decreases n,
{
    if n <= 0 {
        Seq::empty()
    } else {
        all_gadgets(img, pat, base, secs, n - 1) + section_gadgets(img, pat, base, secs[n - 1])
    }
}

proof fn lemma_no_occurrence_prefix(
    img: Seq<u8>,
    pat: Seq<u8>,
    base: int,
    secs: Seq<MemorySection>,
    n: int,
)
    requires
        pat.len() > 0,
        0 <= n <= secs.len(),
        forall|k: int|
            0 <= k < secs.len() ==> (#[trigger] secs[k]).executable() ==> no_match_in(
                secs[k].memory(img),
                pat,
                0,
                secs[k].memory(img).len() as int,
            ),
    ensures
        all_gadgets(img, pat, base, secs, n) == Seq::<int>::empty(),
    decreases n,
{
    if n > 0 {
        lemma_no_occurrence_prefix(img, pat, base, secs, n - 1);
        let s = secs[n - 1];
        if s.executable() {
            let mem = s.memory(img);
            lemma_scan_skip(mem, pat, 0, mem.len() as int);
            lemma_scan_empty_beyond(mem, pat, mem.len() as int);
        }
        assert(all_gadgets(img, pat, base, secs, n) =~= Seq::<int>::empty());
    }
}

/// A pattern that occurs in the memory of no executable section yields no
/// gadget, so a scan for it reports `NoGadget`.
pub proof fn lemma_no_occurrence_no_gadget(
    img: Seq<u8>,
    pat: Seq<u8>,
    base: int,
    secs: Seq<MemorySection>,
)
    requires
        pat.len() > 0,
        forall|k: int|
            0 <= k < secs.len() ==> (#[trigger] secs[k]).executable() ==> no_match_in(
                secs[k].memory(img),
                pat,
                0,
                secs[k].memory(img).len() as int,
            ),
    ensures
        all_gadgets(img, pat, base, secs, secs.len() as int) == Seq::<int>::empty(),
{
    lemma_no_occurrence_prefix(img, pat, base, secs, secs.len() as int);
}

/// Every executable section of the list lies inside the image.
pub open spec fn executable_sections_within(img: Seq<u8>, secs: Seq<MemorySection>) -> bool {
    forall|k: int| 0 <= k < secs.len() ==> (#[trigger] secs[k]).executable() ==> secs[k].within(img.len() as int)
}

/// Scans the executable sections of `section_list`, in order, for `gadget_asm`
/// and fills `gadget_buffer` from the front with the addresses of the matches
/// (the image mapped at `base`), at most as many as it holds. Returns how many,
/// or `NoGadget` where there are none. An executable section that reaches past
/// the image gives `InvalidAddress`, with the buffer unchanged.
pub fn search_gadget(
    gadget_asm: &[u8],
    section_list: &[MemorySection],
    img: &[u8],
    base: usize,
    gadget_buffer: &mut Vec<usize>,
) -> (r: Result<usize, JopcallError>)
    requires
        gadget_asm@.len() > 0,
        base + img@.len() <= usize::MAX,
    ensures
        final(gadget_buffer)@.len() == old(gadget_buffer)@.len(),
        ({
            let all = all_gadgets(img@, gadget_asm@, base as int, section_list@, section_list@.len() as int);
            let cap = old(gadget_buffer)@.len() as int;
            let c = if all.len() < cap {
                all.len() as int
            } else {
                cap
            };
            &&& !executable_sections_within(img@, section_list@) ==> r == Err::<usize, JopcallError>(
                JopcallError::InvalidAddress,
            ) && final(gadget_buffer)@ == old(gadget_buffer)@
            &&& executable_sections_within(img@, section_list@) ==> {
                &&& c == 0 ==> r == Err::<usize, JopcallError>(JopcallError::NoGadget)
                &&& c > 0 ==> r == Ok::<usize, JopcallError>(c as usize)
                &&& forall|j: int| 0 <= j < c ==> #[trigger] final(gadget_buffer)@[j] as int == all[j]
                &&& forall|j: int| c <= j < cap ==> #[trigger] final(gadget_buffer)@[j] == old(gadget_buffer)@[j]
            }
        }),
{
    let mut s: usize = 0;
    while s < section_list.len()
        invariant
            forall|k: int| 0 <= k < s ==> (#[trigger] section_list@[k]).executable() ==> section_list@[k].within(img@.len() as int),
        decreases section_list.len() - s,
    {
        let sec = section_list[s];
        if sec.characteristics & SECTION_MEM_EXECUTE != 0 && (sec.rva as usize > img.len()
            || sec.virtual_size as usize > img.len() - sec.rva as usize) {
            return Err(JopcallError::InvalidAddress);
        }
        s = s + 1;
    }
    let ghost secs = section_list@;
    let ghost pat = gadget_asm@;
    let cap = gadget_buffer.len();
    let mut count: usize = 0;
    let mut s: usize = 0;
    while s < section_list.len()
        invariant
            secs == section_list@,
            pat == gadget_asm@,
            pat.len() > 0,
            base + img@.len() <= usize::MAX,
            executable_sections_within(img@, secs),
            s <= secs.len(),
            cap == old(gadget_buffer)@.len(),
            gadget_buffer@.len() == cap,
            count as int == if all_gadgets(img@, pat, base as int, secs, s as int).len() < cap {
                all_gadgets(img@, pat, base as int, secs, s as int).len() as int
            } else {
                cap as int
            },
            forall|j: int| 0 <= j < count ==> #[trigger] gadget_buffer@[j] as int == all_gadgets(img@, pat, base as int, secs, s as int)[j],
            forall|j: int| count <= j < cap ==> #[trigger] gadget_buffer@[j] == old(gadget_buffer)@[j],
        decreases secs.len() - s,
    {
        let ghost prev = all_gadgets(img@, pat, base as int, secs, s as int);
        let sec = section_list[s];
        let ghost next = all_gadgets(img@, pat, base as int, secs, s + 1);
        assert(next == prev + section_gadgets(img@, pat, base as int, sec));
        assert(next.len() >= prev.len());
        assert(forall|j: int| 0 <= j < prev.len() ==> next[j] == prev[j]);
        if count < cap && sec.characteristics & SECTION_MEM_EXECUTE != 0 {
            let lo = sec.rva as usize;
            let hi = lo + sec.virtual_size as usize;
            let ghost mem = sec.memory(img@);
            let ghost full = greedy_scan(mem, pat, 0);
            let ghost mut done: Seq<int> = Seq::empty();
            let mut pos: usize = 0;
            let mut searching = true;
            while searching && count < cap
                invariant
                    secs == section_list@,
                    pat == gadget_asm@,
                    pat.len() > 0,
                    base + img@.len() <= usize::MAX,
                    lo <= hi <= img@.len(),
                    lo == sec.rva,
                    hi == sec.rva + sec.virtual_size,
                    mem == img@.subrange(lo as int, hi as int),
                    sec.executable(),
                    cap == old(gadget_buffer)@.len(),
                    gadget_buffer@.len() == cap,
                    prev.len() < cap,
                    count <= cap,
                    pos <= hi - lo,
                    count == prev.len() + done.len(),
                    full == done + greedy_scan(mem, pat, pos as int),
                    searching || greedy_scan(mem, pat, pos as int).len() == 0,
                    forall|j: int| 0 <= j < done.len() ==> 0 <= #[trigger] done[j] < mem.len(),
                    forall|j: int| 0 <= j < count ==> #[trigger] gadget_buffer@[j] as int == (prev + done.map_values(|off: int| base + sec.rva + off))[j],
                    forall|j: int| count <= j < cap ==> #[trigger] gadget_buffer@[j] == old(gadget_buffer)@[j],
                decreases (if searching { 1int } else { 0int }) + hi - lo - pos,
            {
                match find_in(gadget_asm, img, lo, hi, pos) {
                    Some(i) => {
                        proof {
                            lemma_scan_skip(mem, pat, pos as int, i as int);
                            assert(greedy_scan(mem, pat, i as int) == seq![i as int] + greedy_scan(mem, pat, i + pat.len()));
                            assert(full == done.push(i as int) + greedy_scan(mem, pat, i + pat.len()));
                            assert(prev + done.push(i as int).map_values(|off: int| base + sec.rva + off)
                                =~= (prev + done.map_values(|off: int| base + sec.rva + off)).push(base + sec.rva + i));
                        }
                        gadget_buffer.set(count, base + lo + i);
                        count = count + 1;
                        pos = i + gadget_asm.len();
                        proof {
                            done = done.push(i as int);
                        }
                    },
                    None => {
                        proof {
                            lemma_scan_skip(mem, pat, pos as int, (hi - lo) as int);
                        }
                        searching = false;
                    },
                }
            }
            proof {
                let mapped = full.map_values(|off: int| base + sec.rva + off);
                assert(section_gadgets(img@, pat, base as int, sec) == mapped);
                assert(next.len() == prev.len() + full.len());
                assert(full.len() >= done.len());
                if searching {
                    assert(count == cap);
                } else {
                    assert(done =~= full);
                }
                assert forall|j: int| 0 <= j < count implies #[trigger] gadget_buffer@[j] as int == next[j] by {
                    if j >= prev.len() {
                        assert(done[j - prev.len()] == full[j - prev.len()]);
                    }
                }
            }
        }
        s = s + 1;
    }
    proof {
        assert(secs =~= section_list@);
    }
    if count == 0 {
        Err(JopcallError::NoGadget)
    } else {
        Ok(count)
    }
}

} // verus!
