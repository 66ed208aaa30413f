//! The calls of the library that reads GPUs.
//!
//! Each call gives back a number, which is 0 where it went well. What comes next is
//! decided here; the calls themselves are made elsewhere.
use vstd::prelude::*;

use crate::text::{copy, has_char, texts};

verus! {

/// The call went well.
pub const DCGM_ST_OK: i32 = 0;

/// A parameter was wrong.
pub const DCGM_ST_BADPARAM: i32 = -1;

/// The call is not supported.
pub const DCGM_ST_NOT_SUPPORTED: i32 = -6;

/// The library was not initialised.
pub const DCGM_ST_INIT_ERROR: i32 = -7;

/// There is no reading.
pub const DCGM_ST_NO_DATA: i32 = -14;

/// The library is not there.
pub const DCGM_ST_LIBRARY_NOT_FOUND: i32 = -25;

/// Readings are taken when they are asked for.
pub const DCGM_OPERATION_MODE_MANUAL: u32 = 2;

/// A group of all GPUs.
pub const DCGM_GROUP_DEFAULT: u32 = 0;

/// How long readings are kept, in seconds.
pub const MAX_KEEP_AGE_SECS: u32 = 600;

/// How many readings are kept.
pub const MAX_KEEP_SAMPLES: i32 = 1;

/// How many GPUs are listed at most.
pub const MAX_GPU_COUNT: usize = 32;

/// Whether the library can be called.
#[derive(Clone, Copy, Debug, PartialEq, Eq, Structural)]
pub enum LibraryState {
    /// It was loaded.
    Loaded,
    /// It was not found.
    NotFound,
    /// Its functions are not there.
    NoFunctions,
}

/// Where the library is looked for, in this order.
pub fn library_names() -> (r: Vec<String>)
    ensures
        texts(r@) == seq![
            "libdcgm.so.2"@,
            "libdcgm.so"@,
            "/usr/lib/x86_64-linux-gnu/libdcgm.so.2"@,
            "/usr/lib/libdcgm.so.2"@,
            "/lib/libdcgm.so.2"@,
        ],
{
    let mut r: Vec<String> = Vec::new();
    r.push(copy("libdcgm.so.2"));
    r.push(copy("libdcgm.so"));
    r.push(copy("/usr/lib/x86_64-linux-gnu/libdcgm.so.2"));
    r.push(copy("/usr/lib/libdcgm.so.2"));
    r.push(copy("/lib/libdcgm.so.2"));
    assert(texts(r@) =~= seq![
        "libdcgm.so.2"@,
        "libdcgm.so"@,
        "/usr/lib/x86_64-linux-gnu/libdcgm.so.2"@,
        "/usr/lib/libdcgm.so.2"@,
        "/lib/libdcgm.so.2"@,
    ]);
    r
}

// ---------------------------------------------------------------------------
// Starting
// ---------------------------------------------------------------------------
/// What comes next in starting the library.
#[derive(Clone, Copy, Debug, PartialEq, Eq, Structural)]
pub enum InitStep {
    /// The library is initialised.
    Init,
    /// The library is started in that mode.
    StartEmbedded { mode: u32 },
    /// The library was started, with that handle.
    Ready(u64),
    /// It was not, with that number.
    Failed(i32),
}

/// What comes next in starting the library.
pub open spec fn next_in_starting(
    library: LibraryState,
    init: Option<i32>,
    started: Option<(i32, u64)>,
) -> InitStep {
    if library !is Loaded {
        InitStep::Failed(DCGM_ST_LIBRARY_NOT_FOUND)
    } else if init is None {
        InitStep::Init
    } else if init->0 != DCGM_ST_OK {
        InitStep::Failed(init->0)
    } else {
        match started {
            None => InitStep::StartEmbedded { mode: DCGM_OPERATION_MODE_MANUAL },
            Some((ret, handle)) => if ret != DCGM_ST_OK {
                InitStep::Failed(ret)
            } else {
                InitStep::Ready(handle)
            },
        }
    }
}

/// What comes next in starting the library, from what its calls gave back so far.
pub fn init_dcgm(library: LibraryState, init: Option<i32>, started: Option<(i32, u64)>) -> (r:
    InitStep)
    ensures
        r == (match (library, init, started) {
            (LibraryState::NotFound | LibraryState::NoFunctions, _, _) => InitStep::Failed(
                DCGM_ST_LIBRARY_NOT_FOUND,
            ),
            (_, None, _) => InitStep::Init,
            (_, Some(ret), s) => if ret != DCGM_ST_OK {
                InitStep::Failed(ret)
            } else {
                match s {
                    None => InitStep::StartEmbedded { mode: DCGM_OPERATION_MODE_MANUAL },
                    Some((ret2, handle)) => if ret2 != DCGM_ST_OK {
                        InitStep::Failed(ret2)
                    } else {
                        InitStep::Ready(handle)
                    },
                }
            },
        }),
        r == next_in_starting(library, init, started),
{
    match library {
        LibraryState::NotFound | LibraryState::NoFunctions => {
            return InitStep::Failed(DCGM_ST_LIBRARY_NOT_FOUND);
        },
        LibraryState::Loaded => {},
    }
    match init {
        None => InitStep::Init,
        Some(ret) => if ret != DCGM_ST_OK {
            InitStep::Failed(ret)
        } else {
            match started {
                None => InitStep::StartEmbedded { mode: DCGM_OPERATION_MODE_MANUAL },
                Some((ret2, handle)) => if ret2 != DCGM_ST_OK {
                    InitStep::Failed(ret2)
                } else {
                    InitStep::Ready(handle)
                },
            }
        },
    }
}

// ---------------------------------------------------------------------------
// Registering fields
// ---------------------------------------------------------------------------
/// What comes next in registering fields.
#[derive(Debug)]
pub enum RegisterStep {
    /// A group of GPUs of that type is made.
    CreateGroup {
        /// The type.
        group_type: u32,
        /// The group's name.
        name: String,
    },
    /// A group of fields is made.
    CreateFieldGroup {
        /// How many fields there are.
        count: i32,
        /// The fields.
        field_ids: Vec<u16>,
        /// The group's name.
        name: String,
    },
    /// The fields are watched.
    WatchFields {
        /// The group of GPUs.
        group: u64,
        /// The group of fields.
        field_group: u64,
        /// How often they are read, in microseconds.
        update_freq_usec: i64,
        /// How long readings are kept, in seconds.
        max_keep_age_secs: u32,
        /// How many readings are kept.
        max_keep_samples: i32,
    },
    /// The fields are registered: the group of GPUs and the group of fields.
    Registered(u64, u64),
    /// They are not, with that number.
    Failed(i32),
}

/// How far registering has come.
#[derive(Clone, Copy, Debug, PartialEq, Eq, Structural)]
pub enum RegisterStage {
    /// The group of GPUs is being made.
    Group,
    /// The group of fields is being made, for that group of GPUs.
    FieldGroup(u64),
    /// The fields of both groups are about to be watched.
    Watch(u64, u64),
    /// Registering has ended.
    Ended,
}

/// How far registering has come after a call gave back `ret` and made `id`.
pub open spec fn stage_after(stage: RegisterStage, ret: i32, id: u64) -> RegisterStage {
    match stage {
        RegisterStage::Group if ret == DCGM_ST_OK => RegisterStage::FieldGroup(id),
        RegisterStage::FieldGroup(group) if ret == DCGM_ST_OK => RegisterStage::Watch(group, id),
        _ => RegisterStage::Ended,
    }
}

/// That `r` comes next in registering fields, after a call gave back `ret` and made `id`.
pub open spec fn registers(
    r: RegisterStep,
    stage: RegisterStage,
    ret: i32,
    id: u64,
    ids: Seq<u16>,
    group: Seq<char>,
    usec: i64,
) -> bool {
    if stage is Ended {
        r == RegisterStep::Failed(DCGM_ST_BADPARAM)
    } else if ret != DCGM_ST_OK {
        r == RegisterStep::Failed(ret)
    } else {
        match stage {
            RegisterStage::FieldGroup(gpus) => r == (RegisterStep::WatchFields {
                group: gpus,
                field_group: id,
                update_freq_usec: usec,
                max_keep_age_secs: MAX_KEEP_AGE_SECS,
                max_keep_samples: MAX_KEEP_SAMPLES,
            }),
            RegisterStage::Watch(gpus, fields) => r == RegisterStep::Registered(gpus, fields),
            _ => r matches RegisterStep::CreateFieldGroup { count, field_ids, name } && count
                == ids.len() as i32 && field_ids@ == ids && name@ == group,
        }
    }
}

/// That registering begins with a group of all GPUs of that name.
pub open spec fn begins(step: RegisterStep, group: Seq<char>) -> bool {
    step matches RegisterStep::CreateGroup { group_type, name } && group_type == DCGM_GROUP_DEFAULT
        && name@ == group
}

/// Fields that are being registered.
#[derive(Debug)]
pub struct Registration {
    field_ids: Vec<u16>,
    field_group_name: String,
    update_freq_usec: i64,
    stage: RegisterStage,
}

/// What is wrong with what is to be registered, before any call.
pub open spec fn refused(
    library: LibraryState,
    field_ids: Seq<u16>,
    group_name: Seq<char>,
    field_group_name: Seq<char>,
) -> Option<i32> {
    if library is NotFound {
        Some(DCGM_ST_LIBRARY_NOT_FOUND)
    } else if group_name.len() == 0 || field_group_name.len() == 0 || group_name.contains('\0')
        || field_group_name.contains('\0') || field_ids.len() == 0 {
        Some(DCGM_ST_BADPARAM)
    } else if library is NoFunctions {
        Some(DCGM_ST_LIBRARY_NOT_FOUND)
    } else {
        None
    }
}

/// Seconds as microseconds, as the library takes them.
pub open spec fn as_usec(secs: u64) -> i64 {
    ((secs * 1_000_000) as u64) as i64
}

impl Registration {
    /// The fields.
    pub closed spec fn field_ids(&self) -> Seq<u16> {
        self.field_ids@
    }

    /// The name of the group of fields.
    pub closed spec fn field_group_name(&self) -> Seq<char> {
        self.field_group_name@
    }

    /// How often the fields are read, in microseconds.
    pub closed spec fn usec(&self) -> i64 {
        self.update_freq_usec
    }

    /// How far registering has come.
    pub closed spec fn stage(&self) -> RegisterStage {
        self.stage
    }

    /// Goes on after a call gave back a number, and the identifier that it made.
    pub fn step(&mut self, ret: i32, id: u64) -> (r: RegisterStep)
        ensures
            final(self).field_ids() == old(self).field_ids(),
            final(self).field_group_name() == old(self).field_group_name(),
            final(self).usec() == old(self).usec(),
            final(self).stage() == stage_after(old(self).stage(), ret, id),
            match old(self).stage() {
                RegisterStage::Ended => r == RegisterStep::Failed(DCGM_ST_BADPARAM),
                _ if ret != DCGM_ST_OK => r == RegisterStep::Failed(ret),
                RegisterStage::Group => {
                    &&& r matches RegisterStep::CreateFieldGroup { count, field_ids, name }
                    &&& count == old(self).field_ids().len() as i32
                    &&& field_ids@ == old(self).field_ids()
                    &&& name@ == old(self).field_group_name()
                },
                RegisterStage::FieldGroup(group) => r == (RegisterStep::WatchFields {
                    group,
                    field_group: id,
                    update_freq_usec: old(self).usec(),
                    max_keep_age_secs: MAX_KEEP_AGE_SECS,
                    max_keep_samples: MAX_KEEP_SAMPLES,
                }),
                RegisterStage::Watch(group, field_group) => r == RegisterStep::Registered(
                    group,
                    field_group,
                ),
            },
            registers(
                r,
                old(self).stage(),
                ret,
                id,
                old(self).field_ids(),
                old(self).field_group_name(),
                old(self).usec(),
            ),
    {
        let stage = self.stage;
        if stage == RegisterStage::Ended {
            return RegisterStep::Failed(DCGM_ST_BADPARAM);
        }
        if ret != DCGM_ST_OK {
            self.stage = RegisterStage::Ended;
            return RegisterStep::Failed(ret);
        }
        match stage {
            RegisterStage::Group => {
                self.stage = RegisterStage::FieldGroup(id);
                RegisterStep::CreateFieldGroup {
                    count: self.field_ids.len() as i32,
                    field_ids: copy_ids(&self.field_ids),
                    name: copy(self.field_group_name.as_str()),
                }
            },
            RegisterStage::FieldGroup(group) => {
                self.stage = RegisterStage::Watch(group, id);
                RegisterStep::WatchFields {
                    group,
                    field_group: id,
                    update_freq_usec: self.update_freq_usec,
                    max_keep_age_secs: MAX_KEEP_AGE_SECS,
                    max_keep_samples: MAX_KEEP_SAMPLES,
                }
            },
            RegisterStage::Watch(group, field_group) => {
                self.stage = RegisterStage::Ended;
                RegisterStep::Registered(group, field_group)
            },
            RegisterStage::Ended => RegisterStep::Failed(DCGM_ST_BADPARAM),
        }
    }
}

fn copy_ids(ids: &Vec<u16>) -> (r: Vec<u16>)
    ensures
        r@ == ids@,
{
    let mut r: Vec<u16> = Vec::new();
    let n: usize = ids.len();
    let mut i: usize = 0;
    while i < n
        invariant
            n == ids@.len(),
            i <= n,
            r@ == ids@.take(i as int),
        decreases n - i,
    {
        r.push(ids[i]);
        assert(ids@.take(i + 1) =~= ids@.take(i as int).push(ids@[i as int]));
        i = i + 1;
    }
    assert(ids@.take(n as int) =~= ids@);
    r
}

fn is_empty(s: &str) -> (r: bool)
    ensures
        r == (s@.len() == 0),
{
    proof {
        reveal_strlit("");
        assert(s@.len() == 0 ==> s@ =~= ""@);
    }
    crate::text::same(s, "")
}

/// Why fields cannot be registered, where they cannot.
pub fn refusal(
    library: LibraryState,
    field_ids: &Vec<u16>,
    group_name: &str,
    field_group_name: &str,
) -> (r: Option<i32>)
    ensures
        r == refused(library, field_ids@, group_name@, field_group_name@),
{
    if library == LibraryState::NotFound {
        Some(DCGM_ST_LIBRARY_NOT_FOUND)
    } else if is_empty(group_name) || is_empty(field_group_name) || has_char(group_name, '\0')
        || has_char(field_group_name, '\0') || field_ids.len() == 0 {
        Some(DCGM_ST_BADPARAM)
    } else if library == LibraryState::NoFunctions {
        Some(DCGM_ST_LIBRARY_NOT_FOUND)
    } else {
        None
    }
}

/// Begins to register fields: with the group of GPUs, or with what is wrong.
pub fn register_fields(
    library: LibraryState,
    field_ids: &Vec<u16>,
    group_name: &str,
    field_group_name: &str,
    update_freq_sec: u64,
) -> (r: Result<(Registration, RegisterStep), i32>)
    requires
        refused(library, field_ids@, group_name@, field_group_name@) is None
            ==> update_freq_sec * 1_000_000 <= u64::MAX,
    ensures
        match refused(library, field_ids@, group_name@, field_group_name@) {
            Some(code) => r matches Err(e) && e == code,
            None => {
                &&& r matches Ok((reg, step))
                &&& reg.field_ids() == field_ids@
                &&& reg.field_group_name() == field_group_name@
                &&& reg.usec() == as_usec(update_freq_sec)
                &&& reg.stage() == RegisterStage::Group
                &&& step matches RegisterStep::CreateGroup { group_type, name }
                &&& group_type == DCGM_GROUP_DEFAULT
                &&& name@ == group_name@
            },
        },
        r matches Ok((_, step)) ==> begins(step, group_name@),
{
    match refusal(library, field_ids, group_name, field_group_name) {
        Some(code) => {
            return Err(code);
        },
        None => {},
    }
    let usec: u64 = update_freq_sec * 1_000_000;
    Ok(
        (
            Registration {
                field_ids: copy_ids(field_ids),
                field_group_name: copy(field_group_name),
                update_freq_usec: usec as i64,
                stage: RegisterStage::Group,
            },
            RegisterStep::CreateGroup { group_type: DCGM_GROUP_DEFAULT, name: copy(group_name) },
        ),
    )
}

/// Registering ends after at most three calls, whatever they give back, and at the
/// first that fails; where the first two go well, the fields of the groups that they
/// made are watched.
pub proof fn law_registering_ends(ret1: i32, id1: u64, ret2: i32, id2: u64, ret3: i32, id3: u64)
    ensures
        ({
            let s1 = stage_after(RegisterStage::Group, ret1, id1);
            let s2 = stage_after(s1, ret2, id2);
            let s3 = stage_after(s2, ret3, id3);
            &&& s3 is Ended
            &&& ret1 != DCGM_ST_OK ==> s1 is Ended
            &&& ret1 == DCGM_ST_OK && ret2 != DCGM_ST_OK ==> s2 is Ended
            &&& ret1 == DCGM_ST_OK && ret2 == DCGM_ST_OK ==> s2 == RegisterStage::Watch(id1, id2)
        }),
{
}

// ---------------------------------------------------------------------------
// Reading
// ---------------------------------------------------------------------------
/// The GPUs that the library listed, or the number that says why there are none.
pub open spec fn listed(library: LibraryState, ret: i32, gpu_ids: Seq<u32>, count: int) -> Result<
    Seq<u32>,
    i32,
> {
    if library !is Loaded {
        Err(DCGM_ST_LIBRARY_NOT_FOUND)
    } else if ret != DCGM_ST_OK {
        Err(ret)
    } else {
        Ok(gpu_ids.take(count))
    }
}

/// The GPUs that the library listed: the first `count` of `gpu_ids`, where the call
/// went well.
pub fn list_all_gpus(library: LibraryState, ret: i32, gpu_ids: &Vec<u32>, count: i32) -> (r: Result<
    Vec<u32>,
    i32,
>)
    requires
        library is Loaded && ret == DCGM_ST_OK ==> 0 <= count <= gpu_ids@.len(),
    ensures
        match r {
            Ok(v) => library is Loaded && ret == DCGM_ST_OK && v@ == gpu_ids@.take(count as int),
            Err(e) => if library !is Loaded {
                e == DCGM_ST_LIBRARY_NOT_FOUND
            } else {
                ret != DCGM_ST_OK && e == ret
            },
        },
        match (r, listed(library, ret, gpu_ids@, count as int)) {
            (Ok(v), Ok(w)) => v@ == w,
            (Err(e), Err(f)) => e == f,
            _ => false,
        },
{
    if library != LibraryState::Loaded {
        return Err(DCGM_ST_LIBRARY_NOT_FOUND);
    }
    if ret != DCGM_ST_OK {
        return Err(ret);
    }
    let n: usize = count as usize;
    let mut r: Vec<u32> = Vec::new();
    let mut i: usize = 0;
    while i < n
        invariant
            n <= gpu_ids@.len(),
            i <= n,
            r@ == gpu_ids@.take(i as int),
        decreases n - i,
    {
        r.push(gpu_ids[i]);
        assert(gpu_ids@.take(i + 1) =~= gpu_ids@.take(i as int).push(gpu_ids@[i as int]));
        i = i + 1;
    }
    Ok(r)
}

/// What a field held, read in each way that it can be read in.
#[derive(Debug)]
pub struct FieldValue<D> {
    /// The field.
    pub field_id: u16,
    /// Its type.
    pub field_type: u16,
    /// Whether there was a reading.
    pub status: i32,
    /// As a reading.
    pub dbl: D,
    /// As a whole number.
    pub int: i64,
    /// As bytes, up to the first that is 0.
    pub text: Vec<u8>,
}

/// What reading one field of one GPU gave.
#[derive(Debug)]
pub struct FieldRead<D> {
    /// What the call gave back.
    pub ret: i32,
    /// What the field held.
    pub value: FieldValue<D>,
}

/// What there is to say of one reading.
#[derive(Clone, Copy, Debug, PartialEq, Eq, Structural)]
pub enum ReadReport {
    /// Nothing.
    Nothing,
    /// That there was no reading.
    NoData,
    /// That the reading is not in order.
    BadStatus,
    /// That it could not be read.
    Failed,
}

/// What there is to say of a reading.
pub open spec fn report_on(ret: i32, status: i32) -> ReadReport {
    if ret != DCGM_ST_OK {
        ReadReport::Failed
    } else if status == DCGM_ST_OK {
        ReadReport::Nothing
    } else if status == DCGM_ST_NO_DATA {
        ReadReport::NoData
    } else {
        ReadReport::BadStatus
    }
}

/// What there is to say of one reading.
pub fn read_report(ret: i32, status: i32) -> (r: ReadReport)
    ensures
        r == if ret != DCGM_ST_OK {
            ReadReport::Failed
        } else if status == DCGM_ST_NO_DATA {
            ReadReport::NoData
        } else if status != DCGM_ST_OK {
            ReadReport::BadStatus
        } else {
            ReadReport::Nothing
        },
        r == report_on(ret, status),
{
    if ret != DCGM_ST_OK {
        ReadReport::Failed
    } else if status == DCGM_ST_NO_DATA {
        ReadReport::NoData
    } else if status != DCGM_ST_OK {
        ReadReport::BadStatus
    } else {
        ReadReport::Nothing
    }
}

/// What comes next in collecting readings.
#[derive(Clone, Copy, Debug, PartialEq, Eq, Structural)]
pub enum CollectStep {
    /// The library is told to take readings now.
    Update,
    /// The GPUs are listed.
    ListGpus,
    /// Every field of the GPU is read.
    ReadFields(u32),
    /// All was read.
    Finish,
    /// Nothing is collected, with that number.
    Failed(i32),
}

/// What comes next in collecting readings, after `read` GPUs were read.
pub open spec fn next_in_collecting(
    library: LibraryState,
    update: Option<i32>,
    gpus: Option<Result<Vec<u32>, i32>>,
    read: int,
) -> CollectStep {
    if library !is Loaded {
        CollectStep::Failed(DCGM_ST_LIBRARY_NOT_FOUND)
    } else if update is None {
        CollectStep::Update
    } else if update->0 != DCGM_ST_OK {
        CollectStep::Failed(update->0)
    } else {
        match gpus {
            None => CollectStep::ListGpus,
            Some(Err(e)) => CollectStep::Failed(e),
            Some(Ok(ids)) => if read < ids@.len() {
                CollectStep::ReadFields(ids@[read])
            } else {
                CollectStep::Finish
            },
        }
    }
}

/// What comes next in collecting readings, from what the calls gave back so far and
/// how many GPUs were read.
pub fn collect_step(
    library: LibraryState,
    update: Option<i32>,
    gpus: &Option<Result<Vec<u32>, i32>>,
    read: usize,
) -> (r: CollectStep)
    ensures
        r == (match (library, update, *gpus) {
            (LibraryState::NotFound | LibraryState::NoFunctions, _, _) => CollectStep::Failed(
                DCGM_ST_LIBRARY_NOT_FOUND,
            ),
            (_, None, _) => CollectStep::Update,
            (_, Some(ret), g) => if ret != DCGM_ST_OK {
                CollectStep::Failed(ret)
            } else {
                match g {
                    None => CollectStep::ListGpus,
                    Some(Err(e)) => CollectStep::Failed(e),
                    Some(Ok(ids)) => if read < ids@.len() {
                        CollectStep::ReadFields(ids@[read as int])
                    } else {
                        CollectStep::Finish
                    },
                }
            },
        }),
        r == next_in_collecting(library, update, *gpus, read as int),
{
    if library != LibraryState::Loaded {
        return CollectStep::Failed(DCGM_ST_LIBRARY_NOT_FOUND);
    }
    match update {
        None => CollectStep::Update,
        Some(ret) => if ret != DCGM_ST_OK {
            CollectStep::Failed(ret)
        } else {
            match gpus {
                None => CollectStep::ListGpus,
                Some(Err(e)) => CollectStep::Failed(*e),
                Some(Ok(ids)) => if read < ids.len() {
                    CollectStep::ReadFields(ids[read])
                } else {
                    CollectStep::Finish
                },
            }
        },
    }
}

/// The values of the fields that could be read.
pub open spec fn good_values<D>(reads: Seq<FieldRead<D>>) -> Seq<FieldValue<D>>
    decreases reads.len(),
{
    if reads.len() == 0 {
        Seq::empty()
    } else {
        let before = good_values(reads.drop_last());
        if reads.last().ret == DCGM_ST_OK {
            before.push(reads.last().value)
        } else {
            before
        }
    }
}

/// The values of each GPU of which a field could be read.
pub open spec fn good_gpus<D>(reads: Seq<(u32, Vec<FieldRead<D>>)>) -> Seq<
    (u32, Seq<FieldValue<D>>),
>
    decreases reads.len(),
{
    if reads.len() == 0 {
        Seq::empty()
    } else {
        let before = good_gpus(reads.drop_last());
        let values = good_values(reads.last().1@);
        if values.len() > 0 {
            before.push((reads.last().0, values))
        } else {
            before
        }
    }
}

/// Readings of GPUs, with the rows of their values as they are.
pub open spec fn gpu_views<D>(v: Seq<(u32, Vec<FieldValue<D>>)>) -> Seq<(u32, Seq<FieldValue<D>>)> {
    v.map_values(|g: (u32, Vec<FieldValue<D>>)| (g.0, g.1@))
}

fn keep_good<D>(reads: Vec<FieldRead<D>>) -> (r: Vec<FieldValue<D>>)
    ensures
        r@ == good_values(reads@),
{
    let mut rest = reads;
    let ghost all = rest@;
    let mut good: Vec<FieldValue<D>> = Vec::new();
    let mut left: usize = rest.len();
    assert(all.take(left as int) =~= all);
    assert(good_values(all) =~= good_values(all) + good@);
    while left > 0
        invariant
            left <= all.len(),
            rest@ == all.take(left as int),
            good_values(all) == good_values(rest@) + good@,
        decreases left,
    {
        let ghost was = rest@;
        let last = rest.pop();
        assert(rest@ =~= was.drop_last());
        assert(was.drop_last() =~= all.take(left - 1));
        if let Some(read) = last {
            if read.ret == DCGM_ST_OK {
                let ghost before = good@;
                good.insert(0, read.value);
                assert(good_values(rest@) + good@ =~= good_values(was) + before);
            }
        }
        left = left - 1;
    }
    assert(good_values(rest@) + good@ =~= good@);
    good
}

/// The values of each GPU of which a field could be read, in their order.
pub fn collect_metrics_by_fields<D>(reads: Vec<(u32, Vec<FieldRead<D>>)>) -> (r: Vec<
    (u32, Vec<FieldValue<D>>),
>)
    ensures
        gpu_views(r@) == good_gpus(reads@),
{
    let mut rest = reads;
    let ghost all = rest@;
    let mut good: Vec<(u32, Vec<FieldValue<D>>)> = Vec::new();
    let mut left: usize = rest.len();
    assert(all.take(left as int) =~= all);
    assert(gpu_views(good@) =~= Seq::<(u32, Seq<FieldValue<D>>)>::empty());
    assert(good_gpus(all) =~= good_gpus(all) + gpu_views(good@));
    while left > 0
        invariant
            left <= all.len(),
            rest@ == all.take(left as int),
            good_gpus(all) == good_gpus(rest@) + gpu_views(good@),
        decreases left,
    {
        let ghost was = rest@;
        let last = rest.pop();
        assert(rest@ =~= was.drop_last());
        assert(was.drop_last() =~= all.take(left - 1));
        if let Some((gpu, fields)) = last {
            let values = keep_good(fields);
            if values.len() > 0 {
                let ghost before = good@;
                let ghost vs = values@;
                good.insert(0, (gpu, values));
                assert(gpu_views(good@) =~= seq![(gpu, vs)] + gpu_views(before));
                assert(good_gpus(rest@) + gpu_views(good@) =~= good_gpus(was) + gpu_views(before));
            }
        }
        left = left - 1;
    }
    assert(good_gpus(rest@) + gpu_views(good@) =~= gpu_views(good@));
    good
}

// ---------------------------------------------------------------------------
// What is kept of the readings
// ---------------------------------------------------------------------------
/// The values of the fields whose call gave back 0 are kept, all of them and in their
/// order, whatever they hold, and no others.
pub proof fn law_every_good_reading_is_kept<D>(reads: Seq<FieldRead<D>>)
    ensures
        good_values(reads) == reads.filter(|r: FieldRead<D>| r.ret == 0).map_values(
            |r: FieldRead<D>| r.value,
        ),
    decreases reads.len(),
{
    reveal(Seq::filter);
    let p = |r: FieldRead<D>| r.ret == 0;
    let v = |r: FieldRead<D>| r.value;
    if reads.len() > 0 {
        let rest = reads.drop_last();
        law_every_good_reading_is_kept(rest);
        assert(rest.filter(p).push(reads.last()).map_values(v) =~= rest.filter(p).map_values(
            v,
        ).push(reads.last().value));
        assert(good_values(reads) =~= reads.filter(p).map_values(v));
    } else {
        assert(good_values(reads) =~= reads.filter(p).map_values(v));
    }
}

/// Every GPU of which a field could be read is kept with all that could be read of it,
/// in the order of the GPUs, and a GPU of which nothing could be read is left out.
pub proof fn law_gpus_with_readings_are_kept<D>(
    before: Seq<(u32, Vec<FieldRead<D>>)>,
    gpu: (u32, Vec<FieldRead<D>>),
)
    ensures
        good_gpus(Seq::<(u32, Vec<FieldRead<D>>)>::empty()).len() == 0,
        (exists|i: int| 0 <= i < gpu.1@.len() && (#[trigger] gpu.1@[i]).ret == 0) ==> good_gpus(
            before.push(gpu),
        ) == good_gpus(before).push((gpu.0, good_values(gpu.1@))),
        (forall|i: int| 0 <= i < gpu.1@.len() ==> (#[trigger] gpu.1@[i]).ret != 0) ==> good_gpus(
            before.push(gpu),
        ) == good_gpus(before),
{
    assert(before.push(gpu).drop_last() =~= before);
    assert(before.push(gpu).last() == gpu);
    lemma_some_good(gpu.1@);
}

proof fn lemma_some_good<D>(reads: Seq<FieldRead<D>>)
    ensures
        good_values(reads).len() > 0 <==> exists|i: int|
            0 <= i < reads.len() && (#[trigger] reads[i]).ret == 0,
    decreases reads.len(),
{
    if reads.len() > 0 {
        let rest = reads.drop_last();
        lemma_some_good(rest);
        assert(reads.last() == reads[reads.len() - 1]);
        if exists|i: int| 0 <= i < rest.len() && (#[trigger] rest[i]).ret == 0 {
            let i = choose|i: int| 0 <= i < rest.len() && (#[trigger] rest[i]).ret == 0;
            assert(reads[i] == rest[i]);
        }
        if exists|i: int| 0 <= i < reads.len() && (#[trigger] reads[i]).ret == 0 {
            let i = choose|i: int| 0 <= i < reads.len() && (#[trigger] reads[i]).ret == 0;
            if i < rest.len() {
                assert(rest[i] == reads[i]);
            }
        }
    }
}

/// Fields are refused where the library cannot be called, or where a name is empty or
/// holds a zero character or no field is named, and only then.
pub proof fn law_only_wrong_parameters_are_refused(
    library: LibraryState,
    field_ids: Seq<u16>,
    group_name: Seq<char>,
    field_group_name: Seq<char>,
)
    ensures
        ({
            let r = refused(library, field_ids, group_name, field_group_name);
            let wrong = field_ids.len() == 0 || group_name.len() == 0 || field_group_name.len() == 0
                || (exists|i: int| 0 <= i < group_name.len() && group_name[i] == '\0') || (exists|
                i: int,
            |
                0 <= i < field_group_name.len() && field_group_name[i] == '\0');
            &&& r is None <==> library is Loaded && !wrong
            &&& library is Loaded && wrong ==> r == Some(-1i32)
            &&& library is NotFound ==> r == Some(-25i32)
            &&& library is NoFunctions && !wrong ==> r == Some(-25i32)
        }),
{
}

/// The time between readings is handed on in millionths of a second.
pub proof fn law_seconds_are_handed_on_in_millionths(secs: u64)
    requires
        secs * 1_000_000 <= i64::MAX,
    ensures
        as_usec(secs) as int == secs as int * 1_000_000,
{
}

/// Starting the library takes two calls, in this order: it is initialised, and started
/// so that readings are taken when they are asked for. The first that fails ends it with
/// what it gave back, and where both go well the library is ready with the handle that
/// was made.
pub proof fn law_starting_takes_two_calls(init: i32, start: i32, handle: u64)
    ensures
        next_in_starting(LibraryState::Loaded, None, None) == InitStep::Init,
        init == 0 ==> next_in_starting(LibraryState::Loaded, Some(init), None) == (
        InitStep::StartEmbedded { mode: 2 }),
        init == 0 && start == 0 ==> next_in_starting(
            LibraryState::Loaded,
            Some(init),
            Some((start, handle)),
        ) == InitStep::Ready(handle),
        init != 0 ==> forall|s: Option<(i32, u64)>|
            next_in_starting(LibraryState::Loaded, Some(init), s) == InitStep::Failed(init),
        init == 0 && start != 0 ==> next_in_starting(
            LibraryState::Loaded,
            Some(init),
            Some((start, handle)),
        ) == InitStep::Failed(start),
        forall|l: LibraryState, i: Option<i32>, s: Option<(i32, u64)>|
            l != LibraryState::Loaded ==> #[trigger] next_in_starting(l, i, s) == InitStep::Failed(-25i32),
{
}

/// Registering asks for a group of all fields under the name that was given, then for
/// them to be read as often as was asked, with one reading kept for ten minutes, and
/// ends with the two groups that were made; a call that fails ends it with what it gave
/// back.
pub proof fn law_registering_hands_on_what_was_asked(
    r: RegisterStep,
    stage: RegisterStage,
    ret: i32,
    id: u64,
    ids: Seq<u16>,
    group: Seq<char>,
    usec: i64,
)
    requires
        registers(r, stage, ret, id, ids, group, usec),
    ensures
        ret != 0 && stage !is Ended ==> r == RegisterStep::Failed(ret),
        stage is Ended ==> r == RegisterStep::Failed(-1i32),
        stage is Group && ret == 0 ==> (r matches RegisterStep::CreateFieldGroup {
            count,
            field_ids,
            name,
        } && field_ids@ == ids && name@ == group && (ids.len() <= i32::MAX ==> count
            == ids.len())),
        stage is FieldGroup && ret == 0 ==> (r matches RegisterStep::WatchFields {
            group: g,
            field_group,
            update_freq_usec,
            max_keep_age_secs,
            max_keep_samples,
        } && g == stage->FieldGroup_0 && field_group == id && update_freq_usec == usec
            && max_keep_age_secs == 600 && max_keep_samples == 1),
        stage is Watch && ret == 0 ==> r == RegisterStep::Registered(
            stage->Watch_0,
            stage->Watch_1,
        ),
{
}

/// Of the numbers that the library filled in, as many are GPUs as it says, from the
/// front; a call that failed lists none.
pub proof fn law_listed_gpus_are_the_first(ret: i32, gpus: Seq<u32>, rest: Seq<u32>)
    ensures
        listed(LibraryState::Loaded, 0, gpus + rest, gpus.len() as int) == Ok::<Seq<u32>, i32>(gpus),
        ret != 0 ==> listed(LibraryState::Loaded, ret, gpus + rest, gpus.len() as int) == Err::<
            Seq<u32>,
            i32,
        >(ret),
        listed(LibraryState::NotFound, ret, gpus, 0) == Err::<Seq<u32>, i32>(-25i32),
        listed(LibraryState::NoFunctions, ret, gpus, 0) == Err::<Seq<u32>, i32>(-25i32),
{
    assert((gpus + rest).take(gpus.len() as int) =~= gpus);
}

/// Nothing is said of a reading that went well, and of any other what is wrong with it,
/// first of the call and then of the reading.
pub proof fn law_only_bad_readings_are_reported(ret: i32, status: i32)
    ensures
        report_on(ret, status) is Nothing <==> ret == 0 && status == 0,
        report_on(ret, status) is Failed <==> ret != 0,
        report_on(ret, status) is NoData <==> ret == 0 && status == -14,
        report_on(ret, status) is BadStatus <==> ret == 0 && status != 0 && status != -14,
{
}

/// Collecting tells the library to take readings, lists the GPUs, reads each of them in
/// the order of the list, and is finished behind the last; the first call that fails
/// ends it with what it gave back.
pub proof fn law_every_listed_gpu_is_read(update: i32, ids: Vec<u32>, e: i32, read: int)
    requires
        0 <= read,
    ensures
        next_in_collecting(LibraryState::Loaded, None, None, read) is Update,
        next_in_collecting(LibraryState::Loaded, Some(0i32), None, read) is ListGpus,
        next_in_collecting(LibraryState::Loaded, Some(0i32), Some(Err(e)), read)
            == CollectStep::Failed(e),
        read < ids@.len() ==> next_in_collecting(
            LibraryState::Loaded,
            Some(0i32),
            Some(Ok(ids)),
            read,
        ) == CollectStep::ReadFields(ids@[read]),
        read >= ids@.len() ==> next_in_collecting(
            LibraryState::Loaded,
            Some(0i32),
            Some(Ok(ids)),
            read,
        ) is Finish,
        update != 0 ==> forall|g: Option<Result<Vec<u32>, i32>>|
            next_in_collecting(LibraryState::Loaded, Some(update), g, read) == CollectStep::Failed(
                update,
            ),
        forall|l: LibraryState, u: Option<i32>, g: Option<Result<Vec<u32>, i32>>|
            l != LibraryState::Loaded ==> #[trigger] next_in_collecting(l, u, g, read)
                == CollectStep::Failed(-25i32),
{
}

/// The group of GPUs that is asked for first holds all of them, under the name that was
/// given.
pub proof fn law_first_group_holds_all_gpus(step: RegisterStep, group: Seq<char>)
    requires
        begins(step, group),
    ensures
        step is CreateGroup && step->group_type == 0 && step->CreateGroup_name@ == group,
{
}

} // verus!
