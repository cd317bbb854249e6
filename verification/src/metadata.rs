//! GGUF metadata: where a model's tensors lie in the blob.

use crate::gguf::{
    law_numbers_take_the_next_bytes, le_value, lemma_string_extends, lemma_uint_extends,
    lemma_value_extends, read_string_at, read_u32_at, read_uint, read_value_at, string_at, take_at,
    u32_at, uint_at, value_at, GgufError, GgufValue, ValueModel,
};
use crate::layers::{
    compile_layers, direct_lookup, is_compiled_table, lookup_layer, LayerError, Tables, TensorTable,
};
use crate::names::NameMap;
use crate::offsets::{CompiledLayerEntry, LayerOffsets};
use vstd::prelude::*;

verus! {

/// Extracted metadata from GGUF header to locate tensors in the blob.
#[derive(Debug)]
pub struct BindlessMetadata {
    pub version: u32,
    pub tensor_count: u64,
    /// Tensor Name -> Byte Offset in GGUF file
    pub tensor_offsets: NameMap<u64>,
    /// Tensor Name -> GGML Type (0=F32, 1=F16, 2=Q4_0, 12=Q4_K, 14=Q6_K, etc.)
    pub tensor_types: NameMap<u32>,
    /// Tensor Name -> Dimensions
    pub tensor_dims: NameMap<Vec<u64>>,
    /// Header/Meta/Alignment overhead size (Data starts at this offset)
    pub data_start_offset: u64,
    /// All GGUF metadata key-value pairs
    pub gguf_metadata: NameMap<GgufValue>,
    /// Pre-compiled per-layer lookup table.
    pub compiled_layers: Vec<CompiledLayerEntry>,
}

/// Key-value pairs of a GGUF header.
pub type KeyValues = Map<Seq<char>, ValueModel>;

/// One key-value pair and the position behind it.
pub open spec fn kv_at(data: Seq<u8>, pos: u64) -> Result<
    (Seq<char>, ValueModel, u64),
    GgufError,
> {
    match string_at(data, pos) {
        Err(e) => Err(e),
        Ok((key, p)) => match u32_at(data, p) {
            Err(e) => Err(e),
            Ok((ty, q)) => match value_at(data, q, ty) {
                Err(e) => Err(e),
                Ok((value, next)) => Ok((key, value, next)),
            },
        },
    }
}

/// The first `n` key-value pairs; a later pair replaces an earlier one of the
/// same key.
pub open spec fn kvs_at(data: Seq<u8>, pos: u64, n: nat) -> Result<(KeyValues, u64), GgufError>
    decreases n,
{
    if n == 0 {
        Ok((Map::empty(), pos))
    } else {
        match kvs_at(data, pos, (n - 1) as nat) {
            Err(e) => Err(e),
            Ok((pairs, p)) => match kv_at(data, p) {
                Err(e) => Err(e),
                Ok((key, value, next)) => Ok((pairs.insert(key, value), next)),
            },
        }
    }
}

/// `n` dimensions.
pub open spec fn dims_at(data: Seq<u8>, pos: u64, n: nat) -> Result<(Seq<u64>, u64), GgufError>
    decreases n,
{
    if n == 0 {
        Ok((Seq::empty(), pos))
    } else {
        match dims_at(data, pos, (n - 1) as nat) {
            Err(e) => Err(e),
            Ok((dims, p)) => match uint_at(data, p, 8) {
                Err(e) => Err(e),
                Ok((d, next)) => Ok((dims.push(d), next)),
            },
        }
    }
}

/// What a GGUF header says of one tensor.
pub struct TensorInfo {
    pub name: Seq<char>,
    pub dims: Seq<u64>,
    pub ty: u32,
    pub offset: u64,
}

/// One tensor info: name, dimension count, dimensions, type, offset.
pub open spec fn info_at(data: Seq<u8>, pos: u64) -> Result<(TensorInfo, u64), GgufError> {
    match string_at(data, pos) {
        Err(e) => Err(e),
        Ok((name, p)) => match u32_at(data, p) {
            Err(e) => Err(e),
            Ok((n_dims, q)) => match dims_at(data, q, n_dims as nat) {
                Err(e) => Err(e),
                Ok((dims, r)) => match u32_at(data, r) {
                    Err(e) => Err(e),
                    Ok((ty, s)) => match uint_at(data, s, 8) {
                        Err(e) => Err(e),
                        Ok((offset, next)) => Ok((TensorInfo { name, dims, ty, offset }, next)),
                    },
                },
            },
        },
    }
}

/// The first `n` tensor infos; a later info replaces an earlier one of the same
/// name. The offsets are those of the header, relative to the data.
pub open spec fn infos_at(data: Seq<u8>, pos: u64, n: nat) -> Result<
    (TensorTable, u64),
    GgufError,
>
    decreases n,
{
    if n == 0 {
        Ok(
            (
                TensorTable { offsets: Map::empty(), types: Map::empty(), dims: Map::empty() },
                pos,
            ),
        )
    } else {
        match infos_at(data, pos, (n - 1) as nat) {
            Err(e) => Err(e),
            Ok((t, p)) => match info_at(data, p) {
                Err(e) => Err(e),
                Ok((info, next)) => Ok(
                    (
                        TensorTable {
                            offsets: t.offsets.insert(info.name, info.offset),
                            types: t.types.insert(info.name, info.ty),
                            dims: t.dims.insert(info.name, info.dims),
                        },
                        next,
                    ),
                ),
            },
        }
    }
}

/// Where the tensor data starts: behind the header, at a multiple of 32.
pub open spec fn data_start(header_end: int) -> int {
    (header_end + 31) / 32 * 32
}

/// The bytes `GGUF`.
pub open spec fn magic() -> Seq<u8> {
    seq![0x47u8, 0x47u8, 0x55u8, 0x46u8]
}

/// What the header of a GGUF stream says.
pub struct Header {
    pub version: u32,
    pub tensor_count: u64,
    pub pairs: KeyValues,
    /// Tensors with their offsets in the file.
    pub tensors: TensorTable,
    pub data_start: u64,
}

/// Whether every offset of a table fits 64 bits when moved by `start`.
pub open spec fn offsets_fit(offsets: Map<Seq<char>, u64>, start: int) -> bool {
    forall|name: Seq<char>| #[trigger]
        offsets.contains_key(name) ==> start + offsets[name] <= u64::MAX
}

/// Every offset of a table, moved by `start`.
pub open spec fn moved_offsets(offsets: Map<Seq<char>, u64>, start: int) -> Map<Seq<char>, u64> {
    Map::new(
        |name: Seq<char>| offsets.contains_key(name),
        |name: Seq<char>| (start + offsets[name]) as u64,
    )
}

/// The header of a GGUF stream: magic, version, the counts of tensors and of
/// key-value pairs, the pairs, the tensor infos.
pub open spec fn header_of(data: Seq<u8>) -> Result<Header, GgufError> {
    match take_at(data, 0, 4) {
        Err(e) => Err(e),
        Ok((found, p)) => if found != magic() {
            Err(GgufError::InvalidMagic)
        } else {
            match u32_at(data, p) {
                Err(e) => Err(e),
                Ok((version, q)) => match uint_at(data, q, 8) {
                    Err(e) => Err(e),
                    Ok((tensor_count, r)) => match uint_at(data, r, 8) {
                        Err(e) => Err(e),
                        Ok((kv_count, s)) => header_body(data, s, version, tensor_count, kv_count),
                    },
                },
            }
        },
    }
}

/// The part of the header behind the counts.
pub open spec fn header_body(
    data: Seq<u8>,
    pos: u64,
    version: u32,
    tensor_count: u64,
    kv_count: u64,
) -> Result<Header, GgufError> {
    match kvs_at(data, pos, kv_count as nat) {
        Err(e) => Err(e),
        Ok((pairs, p)) => match infos_at(data, p, tensor_count as nat) {
            Err(e) => Err(e),
            Ok((t, end)) => if end + 31 > u64::MAX || !offsets_fit(
                t.offsets,
                data_start(end as int),
            ) {
                Err(GgufError::OffsetOverflow)
            } else {
                Ok(
                    Header {
                        version,
                        tensor_count,
                        pairs,
                        tensors: TensorTable {
                            offsets: moved_offsets(t.offsets, data_start(end as int)),
                            types: t.types,
                            dims: t.dims,
                        },
                        data_start: data_start(end as int) as u64,
                    },
                )
            },
        },
    }
}

/// Whether the key-value pairs name the architecture `phi`.
pub open spec fn is_phi(pairs: KeyValues) -> bool {
    pairs.contains_key("general.architecture"@) && pairs["general.architecture"@]
        == ValueModel::Text("phi"@)
}

impl BindlessMetadata {
    /// The tensors that the metadata knows.
    pub open spec fn tensors(self) -> TensorTable {
        TensorTable {
            offsets: self.tensor_offsets@,
            types: self.tensor_types@,
            dims: self.tensor_dims@,
        }
    }

    /// Whether the metadata holds what `header` says.
    pub open spec fn holds(self, header: Header) -> bool {
        &&& self.version == header.version
        &&& self.tensor_count == header.tensor_count
        &&& self.tensors() == header.tensors
        &&& self.data_start_offset == header.data_start
        &&& self.gguf_metadata@ == header.pairs
    }
}

/// Whether `r` is the metadata of `data`: what its header says with the compiled
/// table of its layers, or why it has none.
pub open spec fn metadata_outcome(data: Seq<u8>, r: Result<BindlessMetadata, GgufError>) -> bool {
    match header_of(data) {
        Err(e) => r matches Err(found) && found == e,
        Ok(header) => match r {
            Ok(m) => m.holds(header) && is_compiled_table(
                header.tensors,
                is_phi(header.pairs),
                Ok(m.compiled_layers@),
            ),
            Err(GgufError::LayerOffsets(layer)) => is_compiled_table(
                header.tensors,
                is_phi(header.pairs),
                Err(layer),
            ),
            Err(_) => false,
        },
    }
}

proof fn lemma_kvs_error_stays(data: Seq<u8>, pos: u64, m: nat, n: nat)
    requires
        m <= n,
        kvs_at(data, pos, m) is Err,
    ensures
        kvs_at(data, pos, n) == kvs_at(data, pos, m),
    decreases n,
{
    if m < n {
        lemma_kvs_error_stays(data, pos, m, (n - 1) as nat);
    }
}

proof fn lemma_dims_error_stays(data: Seq<u8>, pos: u64, m: nat, n: nat)
    requires
        m <= n,
        dims_at(data, pos, m) is Err,
    ensures
        dims_at(data, pos, n) == dims_at(data, pos, m),
    decreases n,
{
    if m < n {
        lemma_dims_error_stays(data, pos, m, (n - 1) as nat);
    }
}

proof fn lemma_infos_error_stays(data: Seq<u8>, pos: u64, m: nat, n: nat)
    requires
        m <= n,
        infos_at(data, pos, m) is Err,
    ensures
        infos_at(data, pos, n) == infos_at(data, pos, m),
    decreases n,
{
    if m < n {
        lemma_infos_error_stays(data, pos, m, (n - 1) as nat);
    }
}

fn read_kv(data: &[u8], pos: u64) -> (r: Result<(String, GgufValue, u64), GgufError>)
    ensures
        match kv_at(data@, pos) {
            Ok((key, value, next)) => r matches Ok((k, v, p)) && k@ == key && v@ == value && p
                == next,
            Err(e) => r matches Err(found) && found == e,
        },
{
    let (key, p) = match read_string_at(data, pos) {
        Ok(v) => v,
        Err(e) => {
            return Err(e);
        },
    };
    let (ty, q) = match read_u32_at(data, p) {
        Ok(v) => v,
        Err(e) => {
            return Err(e);
        },
    };
    match read_value_at(data, q, ty) {
        Ok((value, next)) => Ok((key, value, next)),
        Err(e) => Err(e),
    }
}

fn read_kvs(data: &[u8], start: u64, n: u64) -> (r: Result<(NameMap<GgufValue>, u64), GgufError>)
    ensures
        match kvs_at(data@, start, n as nat) {
            Ok((pairs, next)) => r matches Ok((m, p)) && m@ == pairs && p == next,
            Err(e) => r matches Err(found) && found == e,
        },
{
    let mut pairs: NameMap<GgufValue> = NameMap::new();
    let mut pos: u64 = start;
    let mut i: u64 = 0;
    while i < n
        invariant
            i <= n,
            kvs_at(data@, start, i as nat) == Ok::<(KeyValues, u64), GgufError>((pairs@, pos)),
        decreases n - i,
    {
        match read_kv(data, pos) {
            Ok((key, value, next)) => {
                pairs.insert(key, value);
                pos = next;
            },
            Err(e) => {
                proof {
                    lemma_kvs_error_stays(data@, start, (i + 1) as nat, n as nat);
                }
                return Err(e);
            },
        }
        i += 1;
    }
    Ok((pairs, pos))
}

fn read_dims(data: &[u8], start: u64, n: u32) -> (r: Result<(Vec<u64>, u64), GgufError>)
    ensures
        match dims_at(data@, start, n as nat) {
            Ok((dims, next)) => r matches Ok((v, p)) && v@ == dims && p == next,
            Err(e) => r matches Err(found) && found == e,
        },
{
    let mut dims: Vec<u64> = Vec::new();
    let mut pos: u64 = start;
    let mut i: u32 = 0;
    while i < n
        invariant
            i <= n,
            dims_at(data@, start, i as nat) == Ok::<(Seq<u64>, u64), GgufError>((dims@, pos)),
        decreases n - i,
    {
        match read_uint(data, pos, 8) {
            Ok((d, next)) => {
                dims.push(d);
                pos = next;
            },
            Err(e) => {
                proof {
                    lemma_dims_error_stays(data@, start, (i + 1) as nat, n as nat);
                }
                return Err(e);
            },
        }
        i += 1;
    }
    Ok((dims, pos))
}

fn read_info(data: &[u8], pos: u64) -> (r: Result<(String, Vec<u64>, u32, u64, u64), GgufError>)
    ensures
        match info_at(data@, pos) {
            Ok((info, next)) => r matches Ok((name, dims, ty, offset, p)) && {
                &&& name@ == info.name
                &&& dims@ == info.dims
                &&& ty == info.ty
                &&& offset == info.offset
                &&& p == next
            },
            Err(e) => r matches Err(found) && found == e,
        },
{
    let (name, p) = match read_string_at(data, pos) {
        Ok(v) => v,
        Err(e) => {
            return Err(e);
        },
    };
    let (n_dims, q) = match read_u32_at(data, p) {
        Ok(v) => v,
        Err(e) => {
            return Err(e);
        },
    };
    let (dims, after_dims) = match read_dims(data, q, n_dims) {
        Ok(v) => v,
        Err(e) => {
            return Err(e);
        },
    };
    let (ty, after_type) = match read_u32_at(data, after_dims) {
        Ok(v) => v,
        Err(e) => {
            return Err(e);
        },
    };
    match read_uint(data, after_type, 8) {
        Ok((offset, next)) => Ok((name, dims, ty, offset, next)),
        Err(e) => Err(e),
    }
}

/// Tensor tables under construction.
struct OwnedTables {
    offsets: NameMap<u64>,
    types: NameMap<u32>,
    dims: NameMap<Vec<u64>>,
}

impl OwnedTables {
    spec fn table(self) -> TensorTable {
        TensorTable { offsets: self.offsets@, types: self.types@, dims: self.dims@ }
    }
}

fn read_infos(data: &[u8], start: u64, n: u64) -> (r: Result<(OwnedTables, u64), GgufError>)
    ensures
        match infos_at(data@, start, n as nat) {
            Ok((table, next)) => r matches Ok((t, p)) && t.table() == table && p == next,
            Err(e) => r matches Err(found) && found == e,
        },
{
    let mut offsets: NameMap<u64> = NameMap::new();
    let mut types: NameMap<u32> = NameMap::new();
    let mut all_dims: NameMap<Vec<u64>> = NameMap::new();
    let mut pos: u64 = start;
    let mut i: u64 = 0;
    while i < n
        invariant
            i <= n,
            infos_at(data@, start, i as nat) == Ok::<(TensorTable, u64), GgufError>(
                (TensorTable { offsets: offsets@, types: types@, dims: all_dims@ }, pos),
            ),
        decreases n - i,
    {
        match read_info(data, pos) {
            Ok((name, dims, ty, offset, next)) => {
                offsets.insert(name.clone(), offset);
                types.insert(name.clone(), ty);
                all_dims.insert(name, dims);
                pos = next;
            },
            Err(e) => {
                proof {
                    lemma_infos_error_stays(data@, start, (i + 1) as nat, n as nat);
                }
                return Err(e);
            },
        }
        i += 1;
    }
    Ok((OwnedTables { offsets, types, dims: all_dims }, pos))
}

/// Moves every offset by `start`; `None` where one of them does not fit.
fn move_offsets(offsets: &NameMap<u64>, start: u64) -> (r: Option<NameMap<u64>>)
    ensures
        match r {
            Some(m) => offsets_fit(offsets@, start as int) && m@ == moved_offsets(
                offsets@,
                start as int,
            ),
            None => !offsets_fit(offsets@, start as int),
        },
{
    let mut moved: NameMap<u64> = NameMap::new();
    let n: usize = offsets.len();
    let mut i: usize = 0;
    while i < n
        invariant
            n == offsets.names().len(),
            i <= n,
            forall|k: int|
                0 <= k < i ==> moved@.contains_key(#[trigger] offsets.names()[k]) && start
                    + offsets@[offsets.names()[k]] <= u64::MAX,
            forall|name: Seq<char>| #[trigger]
                moved@.contains_key(name) ==> offsets@.contains_key(name) && start + offsets@[name]
                    <= u64::MAX && moved@[name] == start + offsets@[name],
        decreases n - i,
    {
        let (name, offset) = offsets.entry(i);
        if *offset > u64::MAX - start {
            return None;
        }
        moved.insert(name.clone(), start + *offset);
        i += 1;
    }
    proof {
        assert forall|name: Seq<char>| #[trigger] offsets@.contains_key(name) implies start
            + offsets@[name] <= u64::MAX && moved@.contains_key(name) by {
            let k = choose|k: int| 0 <= k < n && offsets.names()[k] == name;
            assert(moved@.contains_key(offsets.names()[k]));
        }
        assert(moved@ =~= moved_offsets(offsets@, start as int));
    }
    Some(moved)
}

fn names_phi(pairs: &NameMap<GgufValue>) -> (r: bool)
    ensures
        r == is_phi(pairs@),
{
    match pairs.get("general.architecture") {
        Some(GgufValue::String(v)) => {
            let phi = "phi".to_string();
            *v == phi
        },
        _ => false,
    }
}

impl BindlessMetadata {
    /// Scans a GGUF file and extracts tensor offsets.
    ///
    /// The tensor data starts behind the header at a multiple of 32 bytes; tensor
    /// offsets are made absolute. `Err` says why the bytes are no GGUF file, or
    /// which layer's tensors cannot be packed.
    pub fn new(data: &[u8]) -> (r: Result<Self, GgufError>)
        ensures
            metadata_outcome(data@, r),
    {
        let size: usize = data.len();
        if size < 4 {
            return Err(GgufError::UnexpectedEnd);
        }
        let ghost found = data@.subrange(0, 4);
        if data[0] != 0x47 || data[1] != 0x47 || data[2] != 0x55 || data[3] != 0x46 {
            proof {
                assert(found[0] == data@[0] && found[1] == data@[1] && found[2] == data@[2]
                    && found[3] == data@[3]);
                assert(found != magic()) by {
                    if found == magic() {
                        assert(magic()[0] == 0x47u8 && magic()[1] == 0x47u8 && magic()[2] == 0x55u8
                            && magic()[3] == 0x46u8);
                    }
                }
            }
            return Err(GgufError::InvalidMagic);
        }
        assert(found =~= magic());
        let (version, p) = match read_u32_at(data, 4) {
            Ok(v) => v,
            Err(e) => {
                return Err(e);
            },
        };
        let (tensor_count, q) = match read_uint(data, p, 8) {
            Ok(v) => v,
            Err(e) => {
                return Err(e);
            },
        };
        let (kv_count, body) = match read_uint(data, q, 8) {
            Ok(v) => v,
            Err(e) => {
                return Err(e);
            },
        };
        let (gguf_metadata, after_kvs) = match read_kvs(data, body, kv_count) {
            Ok(v) => v,
            Err(e) => {
                return Err(e);
            },
        };
        let (owned, raw_end) = match read_infos(data, after_kvs, tensor_count) {
            Ok(v) => v,
            Err(e) => {
                return Err(e);
            },
        };
        if raw_end > u64::MAX - 31 {
            return Err(GgufError::OffsetOverflow);
        }
        let start: u64 = (raw_end + 31) / 32 * 32;
        let tensor_offsets = match move_offsets(&owned.offsets, start) {
            Some(m) => m,
            None => {
                return Err(GgufError::OffsetOverflow);
            },
        };
        let phi: bool = names_phi(&gguf_metadata);
        let tables = Tables { offsets: &tensor_offsets, types: &owned.types, dims: &owned.dims };
        match compile_layers(&tables, phi) {
            Ok(compiled_layers) => Ok(
                BindlessMetadata {
                    version,
                    tensor_count,
                    tensor_offsets,
                    tensor_types: owned.types,
                    tensor_dims: owned.dims,
                    data_start_offset: start,
                    gguf_metadata,
                    compiled_layers,
                },
            ),
            Err(layer) => Err(GgufError::LayerOffsets(layer)),
        }
    }

    /// Byte offset of a tensor in the file.
    pub fn get_tensor_offset(&self, name: &str) -> (r: Option<u64>)
        ensures
            r == (if self.tensor_offsets@.contains_key(name@) {
                Some(self.tensor_offsets@[name@])
            } else {
                None
            }),
    {
        match self.tensor_offsets.get(name) {
            Some(o) => Some(*o),
            None => None,
        }
    }

    /// GGML type of a tensor.
    pub fn get_tensor_type(&self, name: &str) -> (r: Option<u32>)
        ensures
            r == (if self.tensor_types@.contains_key(name@) {
                Some(self.tensor_types@[name@])
            } else {
                None
            }),
    {
        match self.tensor_types.get(name) {
            Some(t) => Some(*t),
            None => None,
        }
    }

    fn tables(&self) -> (t: Tables)
        ensures
            t@ == self.tensors(),
    {
        Tables {
            offsets: &self.tensor_offsets,
            types: &self.tensor_types,
            dims: &self.tensor_dims,
        }
    }

    /// Looks up the packed offsets of a layer: `Ok(None)` where the model has no
    /// such layer, `Err` where it lacks a tensor or an offset does not pack.
    pub fn lookup_layer_offsets(&self, layer_idx: usize) -> (r: Result<
        Option<LayerOffsets>,
        LayerError,
    >)
        ensures
            r == direct_lookup(self.tensors(), layer_idx as nat),
    {
        lookup_layer(&self.tables(), layer_idx)
    }

    /// The packed offsets of a layer, or `None` where the model has no such
    /// layer. A layer that exists has to be complete and packable.
    pub fn get_layer_offsets(&self, layer_idx: usize, _model_arch: &str) -> (r: Option<
        LayerOffsets,
    >)
        requires
            direct_lookup(self.tensors(), layer_idx as nat) is Ok,
        ensures
            r == direct_lookup(self.tensors(), layer_idx as nat)->Ok_0,
    {
        match self.lookup_layer_offsets(layer_idx) {
            Ok(r) => r,
            Err(_) => None,
        }
    }
}

proof fn lemma_kvs_extend(data: Seq<u8>, more: Seq<u8>, pos: u64, n: nat)
    requires
        kvs_at(data, pos, n) is Ok,
    ensures
        kvs_at(data + more, pos, n) == kvs_at(data, pos, n),
    decreases n,
{
    if n > 0 {
        lemma_kvs_extend(data, more, pos, (n - 1) as nat);
        let p = kvs_at(data, pos, (n - 1) as nat)->Ok_0.1;
        lemma_string_extends(data, more, p);
        let q = string_at(data, p)->Ok_0.1;
        lemma_uint_extends(data, more, q, 4);
        let (ty, r) = u32_at(data, q)->Ok_0;
        lemma_value_extends(data, more, r, ty);
    }
}

proof fn lemma_dims_extend(data: Seq<u8>, more: Seq<u8>, pos: u64, n: nat)
    requires
        dims_at(data, pos, n) is Ok,
    ensures
        dims_at(data + more, pos, n) == dims_at(data, pos, n),
    decreases n,
{
    if n > 0 {
        lemma_dims_extend(data, more, pos, (n - 1) as nat);
        let p = dims_at(data, pos, (n - 1) as nat)->Ok_0.1;
        lemma_uint_extends(data, more, p, 8);
    }
}

proof fn lemma_infos_extend(data: Seq<u8>, more: Seq<u8>, pos: u64, n: nat)
    requires
        infos_at(data, pos, n) is Ok,
    ensures
        infos_at(data + more, pos, n) == infos_at(data, pos, n),
    decreases n,
{
    if n > 0 {
        lemma_infos_extend(data, more, pos, (n - 1) as nat);
        let p = infos_at(data, pos, (n - 1) as nat)->Ok_0.1;
        lemma_string_extends(data, more, p);
        let q = string_at(data, p)->Ok_0.1;
        lemma_uint_extends(data, more, q, 4);
        let (n_dims, r) = u32_at(data, q)->Ok_0;
        lemma_dims_extend(data, more, r, n_dims as nat);
        let s = dims_at(data, r, n_dims as nat)->Ok_0.1;
        lemma_uint_extends(data, more, s, 4);
        let u = u32_at(data, s)->Ok_0.1;
        lemma_uint_extends(data, more, u, 8);
    }
}

/// What stands behind the header of a stream does not change what is read from
/// it: the tensor data may be anything.
pub proof fn law_header_ignores_what_follows(data: Seq<u8>, more: Seq<u8>)
    requires
        header_of(data) is Ok,
    ensures
        header_of(data + more) == header_of(data),
{
    assert((data + more).subrange(0, 4) =~= data.subrange(0, 4));
    lemma_uint_extends(data, more, 4, 4);
    let (version, q) = u32_at(data, 4)->Ok_0;
    lemma_uint_extends(data, more, q, 8);
    let (tensor_count, r) = uint_at(data, q, 8)->Ok_0;
    lemma_uint_extends(data, more, r, 8);
    let (kv_count, s) = uint_at(data, r, 8)->Ok_0;
    lemma_kvs_extend(data, more, s, kv_count as nat);
    let p = kvs_at(data, s, kv_count as nat)->Ok_0.1;
    lemma_infos_extend(data, more, p, tensor_count as nat);
}

/// The tensor data starts at a multiple of 32, and no tensor lies before that
/// start.
pub proof fn law_tensors_lie_behind_header(data: Seq<u8>, name: Seq<char>)
    requires
        header_of(data) is Ok,
        header_of(data)->Ok_0.tensors.offsets.contains_key(name),
    ensures
        header_of(data)->Ok_0.data_start % 32 == 0,
        header_of(data)->Ok_0.tensors.offsets[name] >= header_of(data)->Ok_0.data_start,
{
    let q = u32_at(data, 4)->Ok_0.1;
    let (tensor_count, r) = uint_at(data, q, 8)->Ok_0;
    let (kv_count, s) = uint_at(data, r, 8)->Ok_0;
    let p = kvs_at(data, s, kv_count as nat)->Ok_0.1;
    let (t, end) = infos_at(data, p, tensor_count as nat)->Ok_0;
    assert(t.offsets.contains_key(name));
}

/// The header begins with the magic bytes, the version, the number of tensors and the
/// number of pairs, which lie at fixed places; the pairs follow, behind them the
/// tensor infos, and the data starts at the first multiple of 32 behind those. A
/// tensor lies as far behind that start as its info says.
pub proof fn law_header_lies_at_fixed_places(data: Seq<u8>)
    requires
        header_of(data) is Ok,
        data.len() <= u64::MAX,
    ensures
        ({
            let h = header_of(data)->Ok_0;
            let pairs = le_value(data.subrange(16, 24));
            let behind_pairs = kvs_at(data, 24, pairs)->Ok_0.1;
            let (t, end) = infos_at(data, behind_pairs, h.tensor_count as nat)->Ok_0;
            &&& data.len() >= 24
            &&& data[0] == 0x47 && data[1] == 0x47 && data[2] == 0x55 && data[3] == 0x46
            &&& h.version == le_value(data.subrange(4, 8))
            &&& h.tensor_count == le_value(data.subrange(8, 16))
            &&& kvs_at(data, 24, pairs) is Ok
            &&& h.pairs == kvs_at(data, 24, pairs)->Ok_0.0
            &&& infos_at(data, behind_pairs, h.tensor_count as nat) is Ok
            &&& h.data_start % 32 == 0
            &&& end <= h.data_start < end + 32
            &&& h.tensors.types == t.types
            &&& h.tensors.dims == t.dims
            &&& forall|name: Seq<char>| #[trigger]
                h.tensors.offsets.contains_key(name) <==> t.offsets.contains_key(name)
            &&& forall|name: Seq<char>| #[trigger]
                h.tensors.offsets.contains_key(name) ==> h.tensors.offsets[name]
                    == h.data_start + t.offsets[name]
        }),
{
    let found = data.subrange(0, 4);
    assert(found[0] == data[0] && found[1] == data[1] && found[2] == data[2] && found[3]
        == data[3]);
    law_numbers_take_the_next_bytes(data, 4, 4);
    law_numbers_take_the_next_bytes(data, 8, 8);
    law_numbers_take_the_next_bytes(data, 16, 8);
}

/// A pair is its key, the type of its value, and the value.
pub proof fn law_pair_is_key_type_and_value(data: Seq<u8>, pos: u64)
    requires
        kv_at(data, pos) is Ok,
        data.len() <= u64::MAX,
    ensures
        ({
            let (key, value, next) = kv_at(data, pos)->Ok_0;
            let p = string_at(data, pos)->Ok_0.1;
            let ty = le_value(data.subrange(p as int, p + 4)) as u32;
            &&& string_at(data, pos) is Ok
            &&& key == string_at(data, pos)->Ok_0.0
            &&& p + 4 <= data.len()
            &&& value_at(data, (p + 4) as u64, ty) == Ok::<(ValueModel, u64), GgufError>(
                (value, next),
            )
        }),
{
    let p = string_at(data, pos)->Ok_0.1;
    law_numbers_take_the_next_bytes(data, p, 4);
}

/// A tensor info is the tensor's name, the number of its dimensions, the dimensions,
/// the type and the offset, one behind the other.
pub proof fn law_info_is_name_dims_type_and_offset(data: Seq<u8>, pos: u64, i: int)
    requires
        info_at(data, pos) is Ok,
        data.len() <= u64::MAX,
    ensures
        ({
            let (info, next) = info_at(data, pos)->Ok_0;
            let p = string_at(data, pos)->Ok_0.1;
            let n = info.dims.len();
            &&& string_at(data, pos) is Ok
            &&& info.name == string_at(data, pos)->Ok_0.0
            &&& n == le_value(data.subrange(p as int, p + 4))
            &&& next == p + 4 + 8 * n + 12
            &&& next <= data.len()
            &&& 0 <= i < n ==> info.dims[i] == le_value(
                data.subrange(p + 4 + 8 * i, p + 12 + 8 * i),
            )
            &&& info.ty == le_value(data.subrange(next - 12, next - 8))
            &&& info.offset == le_value(data.subrange(next - 8, next as int))
        }),
{
    let p = string_at(data, pos)->Ok_0.1;
    law_numbers_take_the_next_bytes(data, p, 4);
    let (n, q) = u32_at(data, p)->Ok_0;
    lemma_dims_lie_in_order(data, q, n as nat, i);
    let r = dims_at(data, q, n as nat)->Ok_0.1;
    law_numbers_take_the_next_bytes(data, r, 4);
    law_numbers_take_the_next_bytes(data, (r + 4) as u64, 8);
}

proof fn lemma_dims_lie_in_order(data: Seq<u8>, pos: u64, n: nat, i: int)
    requires
        dims_at(data, pos, n) is Ok,
        pos <= data.len() <= u64::MAX,
    ensures
        ({
            let (dims, next) = dims_at(data, pos, n)->Ok_0;
            &&& dims.len() == n
            &&& next == pos + 8 * n
            &&& next <= data.len()
            &&& 0 <= i < n ==> dims[i] == le_value(data.subrange(pos + 8 * i, pos + 8 * i + 8))
        }),
    decreases n,
{
    if n > 0 {
        lemma_dims_lie_in_order(data, pos, (n - 1) as nat, i);
        let p = dims_at(data, pos, (n - 1) as nat)->Ok_0.1;
        law_numbers_take_the_next_bytes(data, p, 8);
    }
}

/// Pairs and infos are read in order; a later one of the same name takes the place of
/// an earlier one, and all others stay.
pub proof fn law_later_entries_replace_earlier_ones(
    data: Seq<u8>,
    pos: u64,
    n: nat,
    other: Seq<char>,
)
    ensures
        kvs_at(data, pos, 0) == Ok::<(KeyValues, u64), GgufError>((Map::empty(), pos)),
        kvs_at(data, pos, n + 1) is Ok ==> {
            let (before, p) = kvs_at(data, pos, n)->Ok_0;
            let (key, value, next) = kv_at(data, p)->Ok_0;
            let (pairs, end) = kvs_at(data, pos, n + 1)->Ok_0;
            &&& kvs_at(data, pos, n) is Ok
            &&& kv_at(data, p) is Ok
            &&& end == next
            &&& pairs.contains_key(key) && pairs[key] == value
            &&& other != key ==> (pairs.contains_key(other) <==> before.contains_key(other))
            &&& other != key && before.contains_key(other) ==> pairs[other] == before[other]
        },
        infos_at(data, pos, n + 1) is Ok ==> {
            let (before, p) = infos_at(data, pos, n)->Ok_0;
            let (info, next) = info_at(data, p)->Ok_0;
            let (t, end) = infos_at(data, pos, n + 1)->Ok_0;
            &&& infos_at(data, pos, n) is Ok
            &&& info_at(data, p) is Ok
            &&& end == next
            &&& t.offsets.contains_key(info.name) && t.offsets[info.name] == info.offset
            &&& t.types.contains_key(info.name) && t.types[info.name] == info.ty
            &&& t.dims.contains_key(info.name) && t.dims[info.name] == info.dims
            &&& other != info.name ==> (t.offsets.contains_key(other)
                <==> before.offsets.contains_key(other))
            &&& other != info.name && before.offsets.contains_key(other) ==> t.offsets[other]
                == before.offsets[other]
            &&& other != info.name ==> (t.types.contains_key(other) <==> before.types.contains_key(
                other,
            ))
            &&& other != info.name && before.types.contains_key(other) ==> t.types[other]
                == before.types[other]
            &&& other != info.name ==> (t.dims.contains_key(other) <==> before.dims.contains_key(
                other,
            ))
            &&& other != info.name && before.dims.contains_key(other) ==> t.dims[other]
                == before.dims[other]
        },
{
}

/// A model is a Phi model just when its architecture is named so.
pub proof fn law_phi_is_named_by_its_architecture(pairs: KeyValues)
    ensures
        is_phi(pairs) <==> pairs.contains_key("general.architecture"@)
            && pairs["general.architecture"@] == ValueModel::Text("phi"@),
{
}

/// A stream is refused for its magic just when its first four bytes are others, and
/// for its end when it has fewer.
pub proof fn law_magic_is_asked_for(data: Seq<u8>)
    requires
        data.len() < 24,
    ensures
        data.len() < 4 ==> header_of(data) == Err::<Header, GgufError>(GgufError::UnexpectedEnd),
        data.len() >= 4 ==> (header_of(data) == Err::<Header, GgufError>(GgufError::InvalidMagic)
            <==> !(data[0] == 0x47 && data[1] == 0x47 && data[2] == 0x55 && data[3] == 0x46)),
        header_of(data) is Err,
{
    if data.len() >= 4 {
        let found = data.subrange(0, 4);
        assert(found[0] == data[0] && found[1] == data[1] && found[2] == data[2] && found[3]
            == data[3]);
        if data[0] == 0x47 && data[1] == 0x47 && data[2] == 0x55 && data[3] == 0x46 {
            assert(found =~= magic());
        }
    }
}

/// A header whose pairs and infos can be read is refused only where an offset in the
/// file does not fit 64 bits: the start of the data, or that of a tensor behind it.
pub proof fn law_header_is_refused_for_offsets_alone(
    data: Seq<u8>,
    pos: u64,
    version: u32,
    tensor_count: u64,
    kv_count: u64,
    start: int,
)
    requires
        kvs_at(data, pos, kv_count as nat) is Ok,
        infos_at(data, kvs_at(data, pos, kv_count as nat)->Ok_0.1, tensor_count as nat) is Ok,
        ({
            let p = kvs_at(data, pos, kv_count as nat)->Ok_0.1;
            let end = infos_at(data, p, tensor_count as nat)->Ok_0.1;
            start % 32 == 0 && end <= start < end + 32
        }),
    ensures
        ({
            let p = kvs_at(data, pos, kv_count as nat)->Ok_0.1;
            let (t, end) = infos_at(data, p, tensor_count as nat)->Ok_0;
            let r = header_body(data, pos, version, tensor_count, kv_count);
            &&& r is Err ==> r == Err::<Header, GgufError>(GgufError::OffsetOverflow)
            &&& r is Ok <==> end + 31 <= 0xffff_ffff_ffff_ffff && forall|name: Seq<char>| #[trigger]
                t.offsets.contains_key(name) ==> start + t.offsets[name] < 0x1_0000_0000_0000_0000
            &&& r is Ok ==> r->Ok_0.data_start == start
        }),
{
    let p = kvs_at(data, pos, kv_count as nat)->Ok_0.1;
    let (t, end) = infos_at(data, p, tensor_count as nat)->Ok_0;
    assert(data_start(end as int) == start);
}

} // verus!
