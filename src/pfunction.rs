use vstd::prelude::*;
use vstd::slice::slice_subrange;
use crate::hashing::HashEngine;
use crate::helper::JopcallError;
use crate::image::{u16_at, u32_at, read_u16, read_u32};
use crate::jop::{NT_OFFSET_FIELD, nt_headers};

verus! {

/// Offset, within the NT headers, of the export directory's RVA.
pub const EXPORT_DIRECTORY_FIELD: u64 = 0x18 + 0x70;

/// The fields of an export directory that resolution reads.
#[derive(Clone, Copy, Debug, PartialEq, Eq, Structural)]
pub struct ExportDirectory {
    /// Entries of the address table.
    pub number_of_functions: u32,
    /// Entries of the name and ordinal tables.
    pub number_of_names: u32,
    /// RVA of the address table (function RVAs).
    pub address_of_functions: u32,
    /// RVA of the name table (name RVAs).
    pub address_of_names: u32,
    /// RVA of the ordinal table (address-table indices).
    pub address_of_ordinals: u32,
}

/// The image's export directory, if its fields lie inside the image.
pub open spec fn export_directory(img: Seq<u8>) -> Option<ExportDirectory> {
    match nt_headers(img) {
        None => None,
        Some(nt) => match u32_at(img, nt + EXPORT_DIRECTORY_FIELD) {
            None => None,
            Some(dir) => match (
                u32_at(img, dir + 0x14),
                u32_at(img, dir + 0x18),
                u32_at(img, dir + 0x1C),
                u32_at(img, dir + 0x20),
                u32_at(img, dir + 0x24),
            ) {
                (Some(nf), Some(nn), Some(af), Some(an), Some(ao)) => Some(
                    ExportDirectory {
                        number_of_functions: nf,
                        number_of_names: nn,
                        address_of_functions: af,
                        address_of_names: an,
                        address_of_ordinals: ao,
                    },
                ),
                _ => None,
            },
        },
    }
}

/// Offset of the first zero byte of `img` at or after `pos`.
pub open spec fn nul_from(img: Seq<u8>, pos: int) -> Option<int>
    decreases img.len() - pos,
{
    if pos < 0 || pos >= img.len() {
        None
    } else if img[pos] == 0 {
        Some(pos)
    } else {
        nul_from(img, pos + 1)
    }
}

/// The zero-terminated string of `img` at `pos`, without its terminator.
pub open spec fn c_string_at(img: Seq<u8>, pos: int) -> Option<Seq<u8>> {
    match nul_from(img, pos) {
        Some(end) => Some(img.subrange(pos, end)),
        None => None,
    }
}

/// Name `i` of the name table.
pub open spec fn export_name(img: Seq<u8>, d: ExportDirectory, i: int) -> Option<Seq<u8>> {
    match u32_at(img, d.address_of_names + 4 * i) {
        Some(rva) => c_string_at(img, rva as int),
        None => None,
    }
}

/// RVA of the function that name `i` exports, if the ordinal and address
/// tables give one inside the image.
pub open spec fn export_rva(img: Seq<u8>, d: ExportDirectory, i: int) -> Option<int> {
    match u16_at(img, d.address_of_ordinals + 2 * i) {
        Some(ord) => if (ord as int) < d.number_of_functions {
            match u32_at(img, d.address_of_functions + 4 * ord) {
                Some(rva) => if (rva as int) < img.len() {
                    Some(rva as int)
                } else {
                    None
                },
                None => None,
            }
        } else {
            None
        },
        None => None,
    }
}

/// Resolution from name `i` on: the first name whose identifier under
/// `engine` is `target` wins; an unreadable name or entry is `InvalidAddress`.
pub open spec fn resolve_from<H: HashEngine>(
    engine: H,
    img: Seq<u8>,
    d: ExportDirectory,
    target: u128,
    i: int,
) -> Result<int, JopcallError>
    decreases d.number_of_names - i,
{
    if i < 0 || i >= d.number_of_names {
        Err(JopcallError::FunctionNotFound)
    } else {
        match export_name(img, d, i) {
            None => Err(JopcallError::InvalidAddress),
            Some(name) => if engine.spec_hash(name) == target {
                match export_rva(img, d, i) {
                    Some(rva) => Ok(rva),
                    None => Err(JopcallError::InvalidAddress),
                }
            } else {
                resolve_from(engine, img, d, target, i + 1)
            },
        }
    }
}

/// The address that the export named by `target` resolves to, for an image
/// mapped at `base`.
pub open spec fn resolve_export<H: HashEngine>(engine: H, img: Seq<u8>, base: int, target: u128) -> Result<
    usize,
    JopcallError,
> {
    match export_directory(img) {
        None => Err(JopcallError::InvalidAddress),
        Some(d) => match resolve_from(engine, img, d, target, 0) {
            Ok(rva) => Ok((base + rva) as usize),
            Err(e) => Err(e),
        },
    }
}

fn read_export_directory(img: &[u8]) -> (r: Option<ExportDirectory>)
    ensures
        r == export_directory(img@),
{
    let nt = read_u32(img, NT_OFFSET_FIELD)?;
    let dir = read_u32(img, nt as u64 + EXPORT_DIRECTORY_FIELD)? as u64;
    let nf = read_u32(img, dir + 0x14)?;
    let nn = read_u32(img, dir + 0x18)?;
    let af = read_u32(img, dir + 0x1C)?;
    let an = read_u32(img, dir + 0x20)?;
    let ao = read_u32(img, dir + 0x24)?;
    Some(
        ExportDirectory {
            number_of_functions: nf,
            number_of_names: nn,
            address_of_functions: af,
            address_of_names: an,
            address_of_ordinals: ao,
        },
    )
}

fn find_nul(img: &[u8], pos: usize) -> (r: Option<usize>)
    ensures
        r matches Some(e) ==> nul_from(img@, pos as int) == Some(e as int) && pos <= e < img@.len(),
        r is None ==> nul_from(img@, pos as int) is None,
{
    let mut j: usize = pos;
    while j < img.len()
        invariant
            pos <= j,
            nul_from(img@, pos as int) == nul_from(img@, j as int),
        decreases img.len() - j,
    {
        if img[j] == 0 {
            return Some(j);
        }
        j = j + 1;
    }
    None
}

fn read_export_rva(img: &[u8], d: &ExportDirectory, i: u32) -> (r: Option<usize>)
    ensures
        r matches Some(v) ==> export_rva(img@, *d, i as int) == Some(v as int) && v < img@.len(),
        r is None ==> export_rva(img@, *d, i as int) is None,
{
    let ord = read_u16(img, d.address_of_ordinals as u64 + 2 * (i as u64))?;
    if ord as u32 >= d.number_of_functions {
        return None;
    }
    let rva = read_u32(img, d.address_of_functions as u64 + 4 * (ord as u64))?;
    if rva as usize >= img.len() {
        return None;
    }
    Some(rva as usize)
}

fn read_export_name<'a>(img: &'a [u8], d: &ExportDirectory, i: u32) -> (r: Option<&'a [u8]>)
    ensures
        r matches Some(n) ==> export_name(img@, *d, i as int) == Some(n@),
        r is None ==> export_name(img@, *d, i as int) is None,
{
    let name_rva = read_u32(img, d.address_of_names as u64 + 4 * (i as u64))?;
    if name_rva as usize >= img.len() {
        return None;
    }
    let end = find_nul(img, name_rva as usize)?;
    Some(slice_subrange(img, name_rva as usize, end))
}

/// Resolves the export of the image (mapped at `base`) whose name has the
/// identifier `function_name` under `engine`: the first such name of the name
/// table wins, and its ordinal picks the address. No such name gives
/// `FunctionNotFound`; a directory, name or table entry that lies outside the
/// image gives `InvalidAddress`.
pub fn get_function_pointer<H: HashEngine>(
    engine: &H,
    img: &[u8],
    base: usize,
    function_name: u128,
) -> (r: Result<usize, JopcallError>)
    requires
        base + img@.len() <= usize::MAX,
    ensures
        r == resolve_export(*engine, img@, base as int, function_name),
{
    let d = match read_export_directory(img) {
        Some(d) => d,
        None => return Err(JopcallError::InvalidAddress),
    };
    let mut i: u32 = 0;
    while i < d.number_of_names
        invariant
            base + img@.len() <= usize::MAX,
            export_directory(img@) == Some(d),
            resolve_from(*engine, img@, d, function_name, 0) == resolve_from(
                *engine,
                img@,
                d,
                function_name,
                i as int,
            ),
        decreases d.number_of_names - i,
    {
        let name = match read_export_name(img, &d, i) {
            Some(n) => n,
            None => return Err(JopcallError::InvalidAddress),
        };
        if engine.hash_bytes(name) == function_name {
            return match read_export_rva(img, &d, i) {
                Some(rva) => Ok(base + rva),
                None => Err(JopcallError::InvalidAddress),
            };
        }
        i = i + 1;
    }
    Err(JopcallError::FunctionNotFound)
}

} // verus!
