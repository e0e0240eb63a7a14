use vstd::prelude::*;
use vstd::string::StringExecFns;

use super::format::{
    format_message,
    spec_decode_header, spec_decode_record, CheckpointTensor, FormatError, TensorRecord,
    HEADER_LEN,
};
use super::model::{
    block_records, blocks_records, model_records, next_latent_records, pair_records,
    tensor_record, HostBlock, HostModel, HostNextLatent, HostNvfp4, HostPair,
};
use super::reader::CheckpointReader;
use super::schema::{block_names, block_part, block_prefix, blocks_names, dotted, join_name, next_latent_names, next_latent_part, pair_names, schema_names, spec_tensor_count, tensor_count};
use crate::text::{decimal_string, spec_decimal};

verus! {

/// Which length of a tensor disagrees with its element count.
#[derive(Clone, Copy, Debug, PartialEq, Eq, Structural)]
pub enum LengthField {
    /// The packed bytes: two elements per byte.
    Bytes,
    /// The scales: one per sixteen elements.
    Scales,
}

/// Why a checkpoint could not be loaded.
#[derive(Debug)]
pub enum CheckpointError {
    /// The bytes do not follow the checkpoint format.
    Format(FormatError),
    /// The header announces another number of tensors than the model has.
    TensorCountMismatch { found: u32, expected: u32 },
    /// Two tensors carry the same name.
    DuplicateTensorName,
    /// A tensor the model needs is not in the checkpoint.
    MissingTensor(String),
    /// A tensor's byte or scale count does not match its element count.
    LengthMismatch { name: String, field: LengthField, actual: usize, expected: usize },
}

/// [`CheckpointError`] as mathematical values.
pub enum LoadError {
    Format(FormatError),
    TensorCountMismatch { found: u32, expected: u32 },
    DuplicateTensorName,
    MissingTensor(Seq<char>),
    LengthMismatch { name: Seq<char>, field: LengthField, actual: usize, expected: usize },
}

impl View for CheckpointError {
    type V = LoadError;

    open spec fn view(&self) -> LoadError {
        match self {
            CheckpointError::Format(e) => LoadError::Format(*e),
            CheckpointError::TensorCountMismatch { found, expected } => LoadError::TensorCountMismatch {
                found: *found,
                expected: *expected,
            },
            CheckpointError::DuplicateTensorName => LoadError::DuplicateTensorName,
            CheckpointError::MissingTensor(name) => LoadError::MissingTensor(name@),
            CheckpointError::LengthMismatch { name, field, actual, expected } => LoadError::LengthMismatch {
                name: name@,
                field: *field,
                actual: *actual,
                expected: *expected,
            },
        }
    }
}

/// The name a length field is reported under.
pub open spec fn field_name(f: LengthField) -> Seq<char> {
    match f {
        LengthField::Bytes => "bytes"@,
        LengthField::Scales => "scales"@,
    }
}

/// The message that reports a load error.
pub open spec fn load_message(e: LoadError) -> Seq<char> {
    match e {
        LoadError::Format(f) => format_message(f),
        LoadError::TensorCountMismatch { found, expected } => "checkpoint has "@ + spec_decimal(
            found as nat,
        ) + " tensors; expected "@ + spec_decimal(expected as nat),
        LoadError::DuplicateTensorName => "checkpoint contains duplicate tensor name"@,
        LoadError::MissingTensor(name) => "checkpoint is missing tensor "@ + name,
        LoadError::LengthMismatch { name, field, actual, expected } => name + " has "@
            + spec_decimal(actual as nat) + " "@ + field_name(field) + "; expected "@ + spec_decimal(
            expected as nat,
        ),
    }
}

impl CheckpointError {
    /// The message that reports this error.
    pub fn message(&self) -> (r: String)
        ensures
            r@ == load_message(self@),
    {
        match self {
            CheckpointError::Format(e) => e.message(),
            CheckpointError::TensorCountMismatch { found, expected } => {
                let mut r = String::from_str("checkpoint has ");
                r.append(decimal_string(*found as usize).as_str());
                r.append(" tensors; expected ");
                r.append(decimal_string(*expected as usize).as_str());
                r
            },
            CheckpointError::DuplicateTensorName => String::from_str(
                "checkpoint contains duplicate tensor name",
            ),
            CheckpointError::MissingTensor(name) => {
                let mut r = String::from_str("checkpoint is missing tensor ");
                r.append(name.as_str());
                r
            },
            CheckpointError::LengthMismatch { name, field, actual, expected } => {
                let mut r = String::from_str(name.as_str());
                r.append(" has ");
                r.append(decimal_string(*actual).as_str());
                r.append(" ");
                match field {
                    LengthField::Bytes => r.append("bytes"),
                    LengthField::Scales => r.append("scales"),
                }
                r.append("; expected ");
                r.append(decimal_string(*expected).as_str());
                r
            },
        }
    }
}

/// The records held by a vector of tensors.
pub open spec fn tensors_view(ts: Seq<CheckpointTensor>) -> Seq<TensorRecord> {
    ts.map_values(|t: CheckpointTensor| t@)
}

/// Whether some record in `ts` is named `name`.
pub open spec fn has_name(ts: Seq<TensorRecord>, name: Seq<char>) -> bool {
    exists|k: int| 0 <= k < ts.len() && #[trigger] ts[k].name == name
}

/// Reading `k` more tensor records from `s` after the records `seen`: a
/// record whose name repeats an earlier one stops the read.
pub open spec fn spec_read_records(s: Seq<u8>, k: nat, seen: Seq<TensorRecord>) -> Result<
    Seq<TensorRecord>,
    LoadError,
>
    decreases k,
{
    if k == 0 {
        Ok(seen)
    } else {
        match spec_decode_record(s) {
            Err(e) => Err(LoadError::Format(e)),
            Ok((t, n)) => {
                if has_name(seen, t.name) {
                    Err(LoadError::DuplicateTensorName)
                } else {
                    spec_read_records(s.skip(n), (k - 1) as nat, seen.push(t))
                }
            },
        }
    }
}

/// The first record of `ts` named `name`, if any.
pub open spec fn spec_find(ts: Seq<TensorRecord>, name: Seq<char>) -> Option<TensorRecord>
    decreases ts.len(),
{
    if ts.len() == 0 {
        None
    } else if ts[0].name == name {
        Some(ts[0])
    } else {
        spec_find(ts.drop_first(), name)
    }
}

/// The length checks of a record: two elements per byte, sixteen per scale.
pub open spec fn spec_validate(t: TensorRecord) -> Result<(), LoadError> {
    if t.bytes.len() != t.len / 2 {
        Err(
            LoadError::LengthMismatch {
                name: t.name,
                field: LengthField::Bytes,
                actual: t.bytes.len() as usize,
                expected: t.len / 2,
            },
        )
    } else if t.scales.len() != t.len / 16 {
        Err(
            LoadError::LengthMismatch {
                name: t.name,
                field: LengthField::Scales,
                actual: t.scales.len() as usize,
                expected: t.len / 16,
            },
        )
    } else {
        Ok(())
    }
}

/// Taking the tensor named `name` out of `ts`: it must be there and pass the
/// length checks.
pub open spec fn spec_take(ts: Seq<TensorRecord>, name: Seq<char>) -> Result<TensorRecord, LoadError> {
    match spec_find(ts, name) {
        None => Err(LoadError::MissingTensor(name)),
        Some(t) => match spec_validate(t) {
            Err(e) => Err(e),
            Ok(_) => Ok(t),
        },
    }
}

/// A tensor passes the length checks exactly when it holds one packed byte
/// per two elements and one scale per sixteen (both rounded down); the
/// byte count is checked first, and a failing check reports the tensor's
/// name, the field, the length found and the length expected.
pub proof fn validate_law(t: TensorRecord)
    ensures
        spec_validate(t) is Ok <==> t.bytes.len() == t.len / 2 && t.scales.len() == t.len / 16,
        t.bytes.len() != t.len / 2 ==> spec_validate(t) == Err::<(), LoadError>(
            LoadError::LengthMismatch {
                name: t.name,
                field: LengthField::Bytes,
                actual: t.bytes.len() as usize,
                expected: t.len / 2,
            },
        ),
        t.bytes.len() == t.len / 2 && t.scales.len() != t.len / 16 ==> spec_validate(t) == Err::<
            (),
            LoadError,
        >(
            LoadError::LengthMismatch {
                name: t.name,
                field: LengthField::Scales,
                actual: t.scales.len() as usize,
                expected: t.len / 16,
            },
        ),
{
}

/// Taking a tensor by name gives the first record of that name when it
/// passes the length checks; a name with no record is reported missing.
pub proof fn take_law(ts: Seq<TensorRecord>, name: Seq<char>)
    ensures
        spec_take(ts, name) matches Ok(t) ==> t.name == name && ts.contains(t) && t.bytes.len() == t.len
            / 2 && t.scales.len() == t.len / 16 && forall|k: int|
            0 <= k < ts.len() && (#[trigger] ts[k]).name == name ==> ts[k] == t || exists|j: int|
                0 <= j < k && ts[j] == t,
        (forall|k: int| 0 <= k < ts.len() ==> (#[trigger] ts[k]).name != name) ==> spec_take(ts, name)
            == Err::<TensorRecord, LoadError>(LoadError::MissingTensor(name)),
    decreases ts.len(),
{
    if ts.len() > 0 {
        let rest = ts.drop_first();
        take_law(rest, name);
        if ts[0].name != name {
            assert(spec_find(ts, name) == spec_find(rest, name));
            if let Ok(t) = spec_take(ts, name) {
                let j0 = choose|j: int| 0 <= j < rest.len() && rest[j] == t;
                assert(ts[j0 + 1] == t);
                assert forall|k: int| 0 <= k < ts.len() && (#[trigger] ts[k]).name == name implies ts[k]
                    == t || exists|j: int| 0 <= j < k && ts[j] == t by {
                    assert(k > 0);
                    assert(rest[k - 1] == ts[k]);
                    if rest[k - 1] != t {
                        let j = choose|j: int| 0 <= j < k - 1 && rest[j] == t;
                        assert(ts[j + 1] == t);
                    }
                }
            }
            if forall|k: int| 0 <= k < ts.len() ==> (#[trigger] ts[k]).name != name {
                assert forall|k: int| 0 <= k < rest.len() implies (#[trigger] rest[k]).name != name by {
                    assert(rest[k] == ts[k + 1]);
                }
            }
        } else {
            assert(ts.contains(ts[0]));
        }
    }
}

/// A successful read holds the records read before it followed by `k`
/// more, and no two of them share a name when none of those read before
/// did.
pub proof fn read_records_law(s: Seq<u8>, k: nat, seen: Seq<TensorRecord>)
    requires
        forall|i: int, j: int| 0 <= i < j < seen.len() ==> seen[i].name != seen[j].name,
    ensures
        spec_read_records(s, k, seen) matches Ok(ts) ==> ts.len() == seen.len() + k && ts.take(
            seen.len() as int,
        ) == seen && forall|i: int, j: int| 0 <= i < j < ts.len() ==> ts[i].name != ts[j].name,
    decreases k,
{
    if k > 0 {
        if let Ok((t, n)) = spec_decode_record(s) {
            if !has_name(seen, t.name) {
                let next = seen.push(t);
                assert forall|i: int, j: int| 0 <= i < j < next.len() implies next[i].name
                    != next[j].name by {
                    if j == seen.len() {
                        assert(next[i] == seen[i]);
                        if seen[i].name == t.name {
                            assert(has_name(seen, t.name));
                        }
                    } else {
                        assert(next[i] == seen[i] && next[j] == seen[j]);
                    }
                }
                read_records_law(s.skip(n), (k - 1) as nat, next);
                if let Ok(ts) = spec_read_records(s, k, seen) {
                    assert(ts.take(next.len() as int) == next);
                    assert(ts.take(seen.len() as int) =~= next.take(seen.len() as int));
                    assert(next.take(seen.len() as int) =~= seen);
                }
            }
        }
    } else {
        assert(seen.take(seen.len() as int) =~= seen);
    }
}

/// Taking the tensors `names` out of `ts` in order; the first failure stops.
pub open spec fn spec_take_all(ts: Seq<TensorRecord>, names: Seq<Seq<char>>) -> Result<
    Seq<TensorRecord>,
    LoadError,
>
    decreases names.len(),
{
    if names.len() == 0 {
        Ok(seq![])
    } else {
        match spec_take_all(ts, names.drop_last()) {
            Err(e) => Err(e),
            Ok(prev) => match spec_take(ts, names.last()) {
                Err(e) => Err(e),
                Ok(t) => Ok(prev.push(t)),
            },
        }
    }
}

/// The outcome of one part of a load followed by the next.
pub open spec fn then_take(
    a: Result<Seq<TensorRecord>, LoadError>,
    b: Result<Seq<TensorRecord>, LoadError>,
) -> Result<Seq<TensorRecord>, LoadError> {
    match a {
        Err(e) => Err(e),
        Ok(x) => match b {
            Err(e) => Err(e),
            Ok(y) => Ok(x + y),
        },
    }
}

/// Loading a checkpoint of a model with `n_layer` blocks from `s`: the header,
/// the announced number of records, then every tensor the model needs, in
/// checkpoint order.
pub open spec fn spec_load(s: Seq<u8>, n_layer: nat) -> Result<Seq<TensorRecord>, LoadError> {
    match spec_decode_header(s) {
        Err(e) => Err(LoadError::Format(e)),
        Ok(count) => {
            if count != spec_tensor_count(n_layer) {
                Err(
                    LoadError::TensorCountMismatch {
                        found: count,
                        expected: spec_tensor_count(n_layer) as u32,
                    },
                )
            } else {
                match spec_read_records(s.skip(HEADER_LEN as int), count as nat, seq![]) {
                    Err(e) => Err(e),
                    Ok(ts) => spec_take_all(ts, schema_names(n_layer)),
                }
            }
        },
    }
}

/// Taking two runs of names is taking the first run, then the second.
pub proof fn take_all_concat(ts: Seq<TensorRecord>, a: Seq<Seq<char>>, b: Seq<Seq<char>>)
    ensures
        spec_take_all(ts, a + b) == then_take(spec_take_all(ts, a), spec_take_all(ts, b)),
    decreases b.len(),
{
    if b.len() == 0 {
        assert(a + b =~= a);
        match spec_take_all(ts, a) {
            Err(e) => {},
            Ok(x) => {
                assert(x + Seq::<TensorRecord>::empty() =~= x);
            },
        }
    } else {
        take_all_concat(ts, a, b.drop_last());
        assert((a + b).drop_last() =~= a + b.drop_last());
        assert((a + b).last() == b.last());
        match spec_take_all(ts, a) {
            Err(e) => {},
            Ok(x) => match spec_take_all(ts, b.drop_last()) {
                Err(e) => {},
                Ok(y) => match spec_take(ts, b.last()) {
                    Err(e) => {},
                    Ok(t) => {
                        assert((x + y).push(t) =~= x + y.push(t));
                    },
                },
            },
        }
    }
}

/// A found record carries the name it was looked up by.
proof fn find_has_name(ts: Seq<TensorRecord>, name: Seq<char>)
    ensures
        spec_find(ts, name) matches Some(t) ==> t.name == name,
    decreases ts.len(),
{
    if ts.len() > 0 && ts[0].name != name {
        find_has_name(ts.drop_first(), name);
    }
}

/// Whether `ts` already holds a tensor named `name`.
fn contains_name(ts: &Vec<CheckpointTensor>, name: &String) -> (r: bool)
    ensures
        r == has_name(tensors_view(ts@), name@),
{
    let mut k: usize = 0;
    while k < ts.len()
        invariant
            k <= ts.len(),
            forall|j: int| 0 <= j < k ==> ts@[j].name@ != name@,
        decreases ts.len() - k,
    {
        if ts[k].name == *name {
            assert(tensors_view(ts@)[k as int].name == name@);
            return true;
        }
        k = k + 1;
    }
    proof {
        if has_name(tensors_view(ts@), name@) {
            let j = choose|j: int|
                0 <= j < tensors_view(ts@).len() && #[trigger] tensors_view(ts@)[j].name == name@;
            assert(ts@[j].name@ == name@);
        }
    }
    false
}

/// Reads `count` tensor records, rejecting a name that repeats an earlier one.
pub fn read_tensors(reader: &mut CheckpointReader, count: u32) -> (r: Result<
    Vec<CheckpointTensor>,
    CheckpointError,
>)
    ensures
        final(reader).source() == old(reader).source(),
        match spec_read_records(old(reader).remaining(), count as nat, seq![]) {
            Ok(ts) => r matches Ok(v) && tensors_view(v@) == ts,
            Err(e) => r matches Err(err) && err@ == e,
        },
{
    let ghost s0 = reader.remaining();
    let mut tensors: Vec<CheckpointTensor> = Vec::new();
    let mut i: u32 = 0;
    assert(tensors_view(tensors@) =~= Seq::<TensorRecord>::empty());
    while i < count
        invariant
            i <= count,
            s0 == old(reader).remaining(),
            reader.source() == old(reader).source(),
            spec_read_records(s0, count as nat, seq![]) == spec_read_records(
                reader.remaining(),
                (count - i) as nat,
                tensors_view(tensors@),
            ),
        decreases count - i,
    {
        let ghost rem = reader.remaining();
        let ghost k = (count - i) as nat;
        assert(spec_read_records(rem, k, tensors_view(tensors@)) == match spec_decode_record(rem) {
            Err(e) => Err(LoadError::Format(e)),
            Ok((t, n)) => {
                if has_name(tensors_view(tensors@), t.name) {
                    Err(LoadError::DuplicateTensorName)
                } else {
                    spec_read_records(rem.skip(n), (k - 1) as nat, tensors_view(tensors@).push(t))
                }
            },
        });
        let tensor = match reader.read_tensor() {
            Ok(t) => t,
            Err(e) => return Err(CheckpointError::Format(e)),
        };
        if contains_name(&tensors, &tensor.name) {
            return Err(CheckpointError::DuplicateTensorName);
        }
        let ghost before = tensors_view(tensors@);
        tensors.push(tensor);
        proof {
            assert(tensors_view(tensors@) =~= before.push(tensor@));
        }
        i = i + 1;
    }
    Ok(tensors)
}

/// The position of the first tensor named `name`, if any.
fn find_tensor(tensors: &Vec<CheckpointTensor>, name: &str) -> (r: Option<usize>)
    ensures
        match spec_find(tensors_view(tensors@), name@) {
            None => r is None,
            Some(t) => r matches Some(k) && k < tensors.len() && tensors@[k as int]@ == t,
        },
{
    let wanted = String::from_str(name);
    let mut k: usize = 0;
    assert(tensors_view(tensors@).skip(0) =~= tensors_view(tensors@));
    while k < tensors.len()
        invariant
            k <= tensors.len(),
            wanted@ == name@,
            spec_find(tensors_view(tensors@), name@) == spec_find(
                tensors_view(tensors@).skip(k as int),
                name@,
            ),
        decreases tensors.len() - k,
    {
        let ghost rest = tensors_view(tensors@).skip(k as int);
        assert(rest[0] == tensors@[k as int]@);
        if tensors[k].name == wanted {
            return Some(k);
        }
        assert(rest.drop_first() =~= tensors_view(tensors@).skip(k as int + 1));
        k = k + 1;
    }
    None
}

/// Checks that a length matches what the element count demands.
pub fn validate_len(name: &str, field: LengthField, actual: usize, expected: usize) -> (r: Result<
    (),
    CheckpointError,
>)
    ensures
        actual == expected ==> r is Ok,
        actual != expected ==> (r matches Err(e) && e@ == (LoadError::LengthMismatch {
            name: name@,
            field,
            actual,
            expected,
        })),
{
    if actual == expected {
        Ok(())
    } else {
        Err(CheckpointError::LengthMismatch { name: String::from_str(name), field, actual, expected })
    }
}

/// Checks the byte and scale counts of `tensor` against its element count.
pub fn validate(name: &str, tensor: &CheckpointTensor) -> (r: Result<(), CheckpointError>)
    requires
        tensor.name@ == name@,
    ensures
        match spec_validate(tensor@) {
            Ok(_) => r is Ok,
            Err(e) => r matches Err(err) && err@ == e,
        },
{
    validate_len(name, LengthField::Bytes, tensor.bytes.len(), tensor.len / 2)?;
    validate_len(name, LengthField::Scales, tensor.scales.len(), tensor.len / 16)
}

/// Takes the tensor named `name`: it must be present and pass the length checks.
pub fn take_uploaded(tensors: &Vec<CheckpointTensor>, name: &str) -> (r: Result<
    HostNvfp4,
    CheckpointError,
>)
    ensures
        match spec_take(tensors_view(tensors@), name@) {
            Ok(t) => r matches Ok(h) && tensor_record(name@, h) == t,
            Err(e) => r matches Err(err) && err@ == e,
        },
{
    proof {
        find_has_name(tensors_view(tensors@), name@);
    }
    let k = match find_tensor(tensors, name) {
        Some(k) => k,
        None => return Err(CheckpointError::MissingTensor(String::from_str(name))),
    };
    let tensor = &tensors[k];
    validate(name, tensor)?;
    let bytes = tensor.bytes.clone();
    let scales = tensor.scales.clone();
    assert(bytes@ =~= tensor.bytes@);
    assert(scales@ =~= tensor.scales@);
    Ok(HostNvfp4 { bytes, scales, global_scale_bits: tensor.global_scale_bits, len: tensor.len })
}

} // verus!

verus! {

/// A single take as a run of one record.
pub open spec fn as_run(r: Result<TensorRecord, LoadError>) -> Result<Seq<TensorRecord>, LoadError> {
    match r {
        Err(e) => Err(e),
        Ok(t) => Ok(seq![t]),
    }
}

proof fn take_all_two(ts: Seq<TensorRecord>, a: Seq<char>, b: Seq<char>)
    ensures
        spec_take_all(ts, seq![a, b]) == then_take(
            then_take(Ok(Seq::<TensorRecord>::empty()), as_run(spec_take(ts, a))),
            as_run(spec_take(ts, b)),
        ),
{
    let e0 = Seq::<Seq<char>>::empty();
    assert(seq![a, b].drop_last() =~= seq![a]);
    assert(seq![a, b].last() == b);
    assert(seq![a].drop_last() =~= e0);
    assert(seq![a].last() == a);
    assert(spec_take_all(ts, e0) == Ok::<Seq<TensorRecord>, LoadError>(seq![]));
    match spec_take(ts, a) {
        Err(e) => {},
        Ok(x) => {
            assert(Seq::<TensorRecord>::empty().push(x) =~= Seq::<TensorRecord>::empty() + seq![x]);
            assert(spec_take_all(ts, seq![a]) == Ok::<Seq<TensorRecord>, LoadError>(seq![x]));
            match spec_take(ts, b) {
                Err(e) => {},
                Ok(y) => {
                    assert(seq![x].push(y) =~= (Seq::<TensorRecord>::empty() + seq![x]) + seq![y]);
                },
            }
        },
    }
}

/// Takes the weight and then the bias stored under `prefix` (a layer norm or
/// a linear layer).
pub fn load_pair(tensors: &Vec<CheckpointTensor>, prefix: &str) -> (r: Result<
    HostPair,
    CheckpointError,
>)
    ensures
        match spec_take_all(tensors_view(tensors@), pair_names(prefix@)) {
            Ok(rs) => r matches Ok(p) && pair_records(prefix@, p) == rs,
            Err(e) => r matches Err(err) && err@ == e,
        },
{
    proof {
        take_all_two(
            tensors_view(tensors@),
            dotted(prefix@, "weight"@),
            dotted(prefix@, "bias"@),
        );
    }
    let weight_name = join_name(prefix, "weight");
    let weight = take_uploaded(tensors, weight_name.as_str())?;
    let bias_name = join_name(prefix, "bias");
    let bias = take_uploaded(tensors, bias_name.as_str())?;
    let p = HostPair { weight, bias };
    assert(pair_records(prefix@, p) =~= seq![
        tensor_record(dotted(prefix@, "weight"@), p.weight),
        tensor_record(dotted(prefix@, "bias"@), p.bias),
    ]);
    Ok(p)
}

/// Takes the twelve tensors of block `index`.
pub fn load_block(tensors: &Vec<CheckpointTensor>, index: usize) -> (r: Result<
    HostBlock,
    CheckpointError,
>)
    ensures
        match spec_take_all(tensors_view(tensors@), block_names(index as nat)) {
            Ok(rs) => r matches Ok(b) && block_records(index as nat, b) == rs,
            Err(e) => r matches Err(err) && err@ == e,
        },
{
    let ghost ts = tensors_view(tensors@);
    let ghost bp = block_prefix(index as nat);
    let ghost n0 = pair_names(dotted(bp, block_part(0)));
    let ghost n1 = pair_names(dotted(bp, block_part(1)));
    let ghost n2 = pair_names(dotted(bp, block_part(2)));
    let ghost n3 = pair_names(dotted(bp, block_part(3)));
    let ghost n4 = pair_names(dotted(bp, block_part(4)));
    let ghost n5 = pair_names(dotted(bp, block_part(5)));
    proof {
        take_all_concat(ts, n0, n1);
        take_all_concat(ts, n0 + n1, n2);
        take_all_concat(ts, n0 + n1 + n2, n3);
        take_all_concat(ts, n0 + n1 + n2 + n3, n4);
        take_all_concat(ts, n0 + n1 + n2 + n3 + n4, n5);
    }
    let number = decimal_string(index);
    let prefix = join_name("blocks", number.as_str());
    let p0 = join_name(prefix.as_str(), "ln_1");
    let ln_1 = load_pair(tensors, p0.as_str())?;
    let p1 = join_name(prefix.as_str(), "attn_qkv");
    let attn_qkv = load_pair(tensors, p1.as_str())?;
    let p2 = join_name(prefix.as_str(), "attn_c_proj");
    let attn_c_proj = load_pair(tensors, p2.as_str())?;
    let p3 = join_name(prefix.as_str(), "ln_2");
    let ln_2 = load_pair(tensors, p3.as_str())?;
    let p4 = join_name(prefix.as_str(), "mlp_up");
    let mlp_up = load_pair(tensors, p4.as_str())?;
    let p5 = join_name(prefix.as_str(), "mlp_down");
    let mlp_down = load_pair(tensors, p5.as_str())?;
    Ok(HostBlock { ln_1, attn_qkv, attn_c_proj, ln_2, mlp_up, mlp_down })
}

/// Takes the tensors of blocks `0..n_layer`, block 0 first.
pub fn load_blocks(tensors: &Vec<CheckpointTensor>, n_layer: usize) -> (r: Result<
    Vec<HostBlock>,
    CheckpointError,
>)
    ensures
        match spec_take_all(tensors_view(tensors@), blocks_names(n_layer as nat)) {
            Ok(rs) => r matches Ok(bs) && bs.len() == n_layer && blocks_records(bs@) == rs,
            Err(e) => r matches Err(err) && err@ == e,
        },
{
    let ghost ts = tensors_view(tensors@);
    let mut blocks: Vec<HostBlock> = Vec::new();
    let mut index: usize = 0;
    assert(spec_take_all(ts, blocks_names(0)) == Ok::<Seq<TensorRecord>, LoadError>(seq![]));
    while index < n_layer
        invariant
            index <= n_layer,
            ts == tensors_view(tensors@),
            blocks.len() == index,
            spec_take_all(ts, blocks_names(index as nat)) == Ok::<Seq<TensorRecord>, LoadError>(
                blocks_records(blocks@),
            ),
        decreases n_layer - index,
    {
        proof {
            take_all_concat(ts, blocks_names(index as nat), block_names(index as nat));
            assert(blocks_names(index as nat + 1) == blocks_names(index as nat) + block_names(
                index as nat,
            ));
        }
        let block = load_block(tensors, index);
        let block = match block {
            Ok(b) => b,
            Err(e) => {
                proof {
                    lemma_take_all_err_extends(ts, index as nat, n_layer as nat);
                }
                return Err(e);
            },
        };
        let ghost before = blocks@;
        blocks.push(block);
        proof {
            assert(blocks@.drop_last() =~= before);
            assert(blocks@.last() == block);
        }
        index = index + 1;
    }
    Ok(blocks)
}

/// Once taking the names of the first `i` blocks fails on the names of
/// block `i`, taking the names of more blocks fails the same way.
proof fn lemma_take_all_err_extends(ts: Seq<TensorRecord>, i: nat, n: nat)
    requires
        i < n,
        spec_take_all(ts, blocks_names(i)) is Ok,
        spec_take_all(ts, blocks_names(i + 1)) is Err,
    ensures
        spec_take_all(ts, blocks_names(n)) == spec_take_all(ts, blocks_names(i + 1)),
    decreases n - i,
{
    if n > i + 1 {
        lemma_take_all_err_extends(ts, i, (n - 1) as nat);
        take_all_concat(ts, blocks_names((n - 1) as nat), block_names((n - 1) as nat));
    }
}

/// Takes the eight tensors of the next-latent head.
pub fn load_next_latent(tensors: &Vec<CheckpointTensor>) -> (r: Result<
    HostNextLatent,
    CheckpointError,
>)
    ensures
        match spec_take_all(tensors_view(tensors@), next_latent_names()) {
            Ok(rs) => r matches Ok(n) && next_latent_records(n) == rs,
            Err(e) => r matches Err(err) && err@ == e,
        },
{
    let ghost ts = tensors_view(tensors@);
    let ghost n0 = pair_names(dotted("next_latent"@, next_latent_part(0)));
    let ghost n1 = pair_names(dotted("next_latent"@, next_latent_part(1)));
    let ghost n2 = pair_names(dotted("next_latent"@, next_latent_part(2)));
    let ghost n3 = pair_names(dotted("next_latent"@, next_latent_part(3)));
    proof {
        take_all_concat(ts, n0, n1);
        take_all_concat(ts, n0 + n1, n2);
        take_all_concat(ts, n0 + n1 + n2, n3);
    }
    let p0 = join_name("next_latent", "norm");
    let norm = load_pair(tensors, p0.as_str())?;
    let p1 = join_name("next_latent", "input_projection");
    let input_projection = load_pair(tensors, p1.as_str())?;
    let p2 = join_name("next_latent", "transition");
    let transition = load_pair(tensors, p2.as_str())?;
    let p3 = join_name("next_latent", "output_projection");
    let output_projection = load_pair(tensors, p3.as_str())?;
    Ok(HostNextLatent { norm, input_projection, transition, output_projection })
}

/// Takes every tensor of a model with `n_layer` blocks, in checkpoint order.
pub fn load_model(tensors: &Vec<CheckpointTensor>, n_layer: usize) -> (r: Result<
    HostModel,
    CheckpointError,
>)
    ensures
        match spec_take_all(tensors_view(tensors@), schema_names(n_layer as nat)) {
            Ok(rs) => r matches Ok(m) && m.blocks.len() == n_layer && model_records(m) == rs,
            Err(e) => r matches Err(err) && err@ == e,
        },
        r matches Ok(m) ==> super::fields::model_stored(tensors_view(tensors@), m),
{
    let ghost ts = tensors_view(tensors@);
    let ghost tok = seq!["token_embedding"@];
    proof {
        take_all_concat(ts, tok, blocks_names(n_layer as nat));
        take_all_concat(ts, tok + blocks_names(n_layer as nat), pair_names("ln_f"@));
        take_all_concat(
            ts,
            tok + blocks_names(n_layer as nat) + pair_names("ln_f"@),
            next_latent_names(),
        );
        assert(tok.drop_last() =~= Seq::<Seq<char>>::empty());
        assert(tok.last() == "token_embedding"@);
        assert(spec_take_all(ts, Seq::<Seq<char>>::empty()) == Ok::<Seq<TensorRecord>, LoadError>(
            seq![],
        ));
        assert(schema_names(n_layer as nat) == tok + blocks_names(n_layer as nat) + pair_names(
            "ln_f"@,
        ) + next_latent_names());
    }
    let token_embedding = take_uploaded(tensors, "token_embedding")?;
    let blocks = load_blocks(tensors, n_layer)?;
    let ln_f = load_pair(tensors, "ln_f")?;
    let next_latent = load_next_latent(tensors)?;
    let m = HostModel { token_embedding, blocks, ln_f, next_latent };
    proof {
        let t0 = tensor_record("token_embedding"@, m.token_embedding);
        assert(Seq::<TensorRecord>::empty().push(t0) =~= seq![t0]);
        super::fields::taken_fields_come_from_their_names(ts, n_layer as nat, m);
    }
    Ok(m)
}

/// Loads a checkpoint of a model with `n_layer` blocks from its bytes: reads
/// the header, checks the tensor count, reads every record, then takes each
/// tensor the model needs by name.
pub fn load_checkpoint(bytes: Vec<u8>, n_layer: usize) -> (r: Result<HostModel, CheckpointError>)
    requires
        spec_tensor_count(n_layer as nat) <= u32::MAX,
    ensures
        match spec_load(bytes@, n_layer as nat) {
            Ok(rs) => r matches Ok(m) && m.blocks.len() == n_layer && model_records(m) == rs,
            Err(e) => r matches Err(err) && err@ == e,
        },
        r matches Ok(m) ==> spec_read_records(
            bytes@.skip(HEADER_LEN as int),
            spec_tensor_count(n_layer as nat) as nat,
            seq![],
        ) matches Ok(ts) && super::fields::model_stored(ts, m),
{
    let ghost input = bytes@;
    let mut reader = CheckpointReader::new(bytes);
    let count = match reader.read_header() {
        Ok(c) => c,
        Err(e) => return Err(CheckpointError::Format(e)),
    };
    let expected = tensor_count(n_layer);
    if count != expected {
        return Err(CheckpointError::TensorCountMismatch { found: count, expected });
    }
    let tensors = read_tensors(&mut reader, count)?;
    let loaded = load_model(&tensors, n_layer);
    proof {
        if loaded is Ok {
            super::fields::loaded_fields_come_from_their_names(input, n_layer as nat, loaded->Ok_0);
        }
    }
    loaded
}

} // verus!
