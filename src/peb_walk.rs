use vstd::prelude::*;
use crate::hashing::HashEngine;
use crate::helper::JopcallError;

verus! {

/// Capacity of the buffer that a module name is transliterated into; a name
/// must end before it is full.
pub const NAME_BUFFER_LEN: usize = 255;

/// One loaded-module record of a loader snapshot: the module's name in
/// UTF-16 code units and its base address.
#[derive(Debug)]
pub struct ModuleRecord {
    pub name: Vec<u16>,
    pub base: usize,
}

/// A code unit that is kept in a module's key: printable ASCII other than
/// space (not a control, whitespace or non-ASCII character).
pub open spec fn name_unit_kept(u: u16) -> bool {
    0x21 <= u <= 0x7E
}

/// ASCII lowercase of a kept code unit, as a byte.
pub open spec fn lower_unit(u: u16) -> u8 {
    if 0x41 <= u <= 0x5A {
        (u + 32) as u8
    } else {
        u as u8
    }
}

/// Length of the run of kept code units of `name` from `i` on.
pub open spec fn kept_run(name: Seq<u16>, i: int) -> int
    decreases name.len() - i,
{
    if i < 0 || i >= name.len() || !name_unit_kept(name[i]) {
        0
    } else {
        1 + kept_run(name, i + 1)
    }
}

/// The text that a module's name is hashed as: its leading kept code units,
/// lowercased; a name whose leading run does not end within the name buffer
/// has none.
pub open spec fn module_key(name: Seq<u16>) -> Option<Seq<u8>> {
    let p = kept_run(name, 0);
    if p < NAME_BUFFER_LEN {
        Some(Seq::new(p as nat, |k: int| lower_unit(name[k])))
    } else {
        None
    }
}

/// Lookup from record `i` on: the first record whose key has the identifier
/// `dll` under `engine` gives its base address.
pub open spec fn find_module_from<H: HashEngine>(
    engine: H,
    modules: Seq<ModuleRecord>,
    dll: u128,
    i: int,
) -> Result<usize, JopcallError>
    decreases modules.len() - i,
{
    if i < 0 || i >= modules.len() {
        Err(JopcallError::ModuleNotFound)
    } else {
        match module_key(modules[i].name@) {
            Some(key) => if engine.spec_hash(key) == dll {
                Ok(modules[i].base)
            } else {
                find_module_from(engine, modules, dll, i + 1)
            },
            None => find_module_from(engine, modules, dll, i + 1),
        }
    }
}

proof fn lemma_kept_run_nonneg(name: Seq<u16>, i: int)
    ensures
        kept_run(name, i) >= 0,
    decreases name.len() - i,
{
    if 0 <= i < name.len() && name_unit_kept(name[i]) {
        lemma_kept_run_nonneg(name, i + 1);
    }
}

proof fn lemma_kept_run_from(name: Seq<u16>, i: int)
    requires
        0 <= i <= name.len(),
        forall|k: int| 0 <= k < i ==> name_unit_kept(#[trigger] name[k]),
    ensures
        kept_run(name, 0) == i + kept_run(name, i),
    decreases i,
{
    if i > 0 {
        lemma_kept_run_shift(name, 0, i);
    }
}

proof fn lemma_kept_run_shift(name: Seq<u16>, j: int, i: int)
    requires
        0 <= j <= i <= name.len(),
        forall|k: int| j <= k < i ==> name_unit_kept(#[trigger] name[k]),
    ensures
        kept_run(name, j) == (i - j) + kept_run(name, i),
    decreases i - j,
{
    if j < i {
        lemma_kept_run_shift(name, j + 1, i);
    }
}

proof fn lemma_find_module_at<H: HashEngine>(
    engine: H,
    modules: Seq<ModuleRecord>,
    key: Seq<u8>,
    i: int,
    j: int,
)
    requires
        0 <= j <= i < modules.len(),
        module_key(modules[i].name@) == Some(key),
        forall|k: int|
            0 <= k < i ==> match module_key((#[trigger] modules[k]).name@) {
                Some(other) => engine.spec_hash(other) != engine.spec_hash(key),
                None => true,
            },
    ensures
        find_module_from(engine, modules, engine.spec_hash(key), j) == Ok::<usize, JopcallError>(
            modules[i].base,
        ),
    decreases i - j,
{
    if j < i {
        assert(match module_key(modules[j].name@) {
            Some(other) => engine.spec_hash(other) != engine.spec_hash(key),
            None => true,
        });
        lemma_find_module_at(engine, modules, key, i, j + 1);
    }
}

/// Lookup follows the engine it is given: the identifier that `engine` gives
/// a module's name finds that module under the same engine, unless an earlier
/// record's name has the same identifier under it.
pub proof fn lemma_lookup_follows_engine<H: HashEngine>(
    engine: H,
    modules: Seq<ModuleRecord>,
    i: int,
)
    requires
        0 <= i < modules.len(),
        module_key(modules[i].name@) is Some,
        forall|k: int|
            0 <= k < i ==> match module_key((#[trigger] modules[k]).name@) {
                Some(other) => engine.spec_hash(other) != engine.spec_hash(
                    module_key(modules[i].name@)->0,
                ),
                None => true,
            },
    ensures
        find_module_from(
            engine,
            modules,
            engine.spec_hash(module_key(modules[i].name@)->0),
            0,
        ) == Ok::<usize, JopcallError>(modules[i].base),
{
    lemma_find_module_at(engine, modules, module_key(modules[i].name@)->0, i, 0);
}

/// Transliterates a module's UTF-16 name into the lowercase ASCII text that
/// it is hashed as: the leading printable, non-space ASCII units, or none
/// where they fill the whole name buffer.
pub fn module_name_key(name: &[u16]) -> (r: Option<Vec<u8>>)
    ensures
        r matches Some(v) ==> module_key(name@) == Some(v@),
        r is None ==> module_key(name@) is None,
{
    let mut key: Vec<u8> = Vec::new();
    let mut i: usize = 0;
    while i < name.len() && i < NAME_BUFFER_LEN && 0x21 <= name[i] && name[i] <= 0x7E
        invariant
            i <= name@.len(),
            i <= NAME_BUFFER_LEN,
            key@.len() == i,
            forall|k: int| 0 <= k < i ==> name_unit_kept(#[trigger] name@[k]),
            forall|k: int| 0 <= k < i ==> #[trigger] key@[k] == lower_unit(name@[k]),
        decreases name@.len() - i,
    {
        let u = name[i];
        let c: u8 = if 0x41 <= u && u <= 0x5A {
            (u + 32) as u8
        } else {
            u as u8
        };
        key.push(c);
        i = i + 1;
    }
    proof {
        lemma_kept_run_from(name@, i as int);
    }
    if i >= NAME_BUFFER_LEN {
        proof {
            lemma_kept_run_nonneg(name@, i as int);
            assert(kept_run(name@, 0) >= NAME_BUFFER_LEN);
        }
        return None;
    }
    proof {
        assert(kept_run(name@, i as int) == 0);
        assert(key@ =~= Seq::new(i as nat, |k: int| lower_unit(name@[k])));
    }
    Some(key)
}

/// The base address of the first module of the snapshot `modules` whose
/// name has the identifier `dll` under `engine`, or `ModuleNotFound`. Records
/// whose names cannot be transliterated are passed over.
pub fn get_dll_base_address<H: HashEngine>(engine: &H, modules: &[ModuleRecord], dll: u128) -> (r:
    Result<usize, JopcallError>)
    ensures
        r == find_module_from(*engine, modules@, dll, 0),
{
    let mut i: usize = 0;
    while i < modules.len()
        invariant
            i <= modules@.len(),
            find_module_from(*engine, modules@, dll, 0) == find_module_from(
                *engine,
                modules@,
                dll,
                i as int,
            ),
        decreases modules@.len() - i,
    {
        if let Some(key) = module_name_key(modules[i].name.as_slice()) {
            if engine.hash_bytes(key.as_slice()) == dll {
                return Ok(modules[i].base);
            }
        }
        i = i + 1;
    }
    Err(JopcallError::ModuleNotFound)
}

} // verus!
