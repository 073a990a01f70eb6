//! Health, statistics, and transfers to and from device memory.
use crate::convert::{
    fresh_meta, internal_key, message_meta, meta_from_pb, meta_to_pb, pb_key_to_internal,
};
use crate::messages::{
    GetToGpuRequest, GetToGpuResponse, GetToGpuResponseView, HealthResponse, HealthResponseView,
    ObjectKey, ObjectKeyView, PutFromGpuRequest, ServingStatus, StatsResponse, StatsResponseView,
};
use crate::model::{BlockMeta, BlockMetaView, InternalKey, InternalKeyView};
use crate::status::{error, Code, Status, StatusView};
use vstd::prelude::*;

verus! {

/// The answer to a health probe of the version `version`.
pub open spec fn health_answer(version: Seq<char>) -> HealthResponseView {
    HealthResponseView { status: ServingStatus::Serving, version }
}

/// The answer to a health probe: a service that answers at all is serving.
pub fn health_response(version: &str) -> (r: HealthResponse)
    ensures
        r.deep_view() == health_answer(version@),
{
    HealthResponse { status: ServingStatus::Serving, version: version.to_string() }
}

/// The counters of a cache with `hits`, `misses` and a size of `size` bytes.
pub open spec fn stats_answer(hits: u64, misses: u64, size: u64) -> StatsResponseView {
    StatsResponseView {
        l1_cache_hits: hits as i64,
        l1_cache_misses: misses as i64,
        l1_cache_size_bytes: size as i64,
        l2_reads_total: 0,
        l2_writes_total: 0,
        l2_bytes_read: 0,
        l2_bytes_written: 0,
        metadata_entries: 0,
        devices: seq![],
    }
}

/// The counters of the cache: its hits, its misses and its size in bytes. The storage tier does
/// not count.
pub fn stats_response(hits: u64, misses: u64, size: u64) -> (r: StatsResponse)
    ensures
        r.deep_view() == stats_answer(hits, misses, size),
{
    let devices: Vec<String> = Vec::new();
    assert(devices.deep_view() =~= seq![]);
    StatsResponse {
        l1_cache_hits: hits as i64,
        l1_cache_misses: misses as i64,
        l1_cache_size_bytes: size as i64,
        l2_reads_total: 0,
        l2_writes_total: 0,
        l2_bytes_read: 0,
        l2_bytes_written: 0,
        metadata_entries: 0,
        devices,
    }
}

/// The words with which `tonic` describes the gRPC status code `code`.
pub uninterp spec fn code_description(code: i32) -> Seq<char>;

/// `tonic::Code::from_i32` and `tonic::Code::description`: the words for a status code, which
/// depend on the code alone.
#[verifier::external_body]
fn describe_code(code: i32) -> (r: &'static str)
    ensures
        r@ == code_description(code),
{
    tonic::Code::from_i32(code).description()
}

/// The name under which a request is counted: `ok_status` where it succeeded, and otherwise the
/// words for the status code `failure`.
pub fn request_label(ok_status: &'static str, failure: Option<i32>) -> (r: &'static str)
    ensures
        r@ == (match failure {
            Some(code) => code_description(code),
            None => ok_status@,
        }),
{
    match failure {
        Some(code) => describe_code(code),
        None => ok_status,
    }
}

/// Whether this build and this machine can transfer to and from device memory.
#[derive(Debug, Clone, Copy, PartialEq, Eq)]
pub enum GdsSupport {
    NotCompiled,
    Unavailable,
    Ready,
}

/// The size of a handle to device memory of another process, in bytes.
pub const IPC_HANDLE_SIZE: usize = 64;

/// A transfer between an object and device memory.
pub struct GpuTransfer {
    pub key: InternalKey,
    pub ipc_handle: Vec<u8>,
    pub buf_size: usize,
    pub device: Option<i32>,
}

/// The mathematical content of a [`GpuTransfer`].
#[verifier::ext_equal]
pub struct GpuTransferView {
    pub key: InternalKeyView,
    pub ipc_handle: Seq<u8>,
    pub buf_size: usize,
    pub device: Option<i32>,
}

impl DeepView for GpuTransfer {
    type V = GpuTransferView;

    open spec fn deep_view(&self) -> GpuTransferView {
        GpuTransferView {
            key: self.key.deep_view(),
            ipc_handle: self.ipc_handle@,
            buf_size: self.buf_size,
            device: self.device,
        }
    }
}

/// The transfer that a request asks for. No device is picked where its number is negative.
pub open spec fn gpu_transfer(
    support: GdsSupport,
    unavailable: Seq<char>,
    key: Option<ObjectKeyView>,
    ipc_handle: Seq<u8>,
    buf_size: u64,
    gpu_device: i32,
) -> Result<GpuTransferView, StatusView> {
    match (support, key) {
        (GdsSupport::NotCompiled, _) => Err(
            error(
                Code::Unimplemented,
                "GDS path not compiled (rebuild with --features gds)"@,
            ),
        ),
        (GdsSupport::Unavailable, _) => Err(error(Code::FailedPrecondition, unavailable)),
        (GdsSupport::Ready, None) => Err(error(Code::InvalidArgument, "missing key"@)),
        (GdsSupport::Ready, Some(k)) => if ipc_handle.len() != IPC_HANDLE_SIZE {
            Err(error(Code::InvalidArgument, "ipc_handle must be 64 bytes"@))
        } else {
            Ok(
                GpuTransferView {
                    key: internal_key(k),
                    ipc_handle,
                    buf_size: buf_size as usize,
                    device: if gpu_device >= 0 {
                        Some(gpu_device)
                    } else {
                        None
                    },
                },
            )
        },
    }
}

/// The mathematical content of a planned transfer.
pub open spec fn transfer_view(r: Result<GpuTransfer, Status>) -> Result<
    GpuTransferView,
    StatusView,
> {
    match r {
        Ok(t) => Ok(t.deep_view()),
        Err(e) => Err(e.deep_view()),
    }
}

fn plan_transfer(
    support: GdsSupport,
    unavailable: &str,
    key: Option<&ObjectKey>,
    ipc_handle: Vec<u8>,
    buf_size: u64,
    gpu_device: i32,
) -> (r: Result<GpuTransfer, Status>)
    ensures
        transfer_view(r) == gpu_transfer(
            support,
            unavailable@,
            key.deep_view(),
            ipc_handle@,
            buf_size,
            gpu_device,
        ),
{
    match support {
        GdsSupport::NotCompiled => {
            return Err(
                Status::new(
                    Code::Unimplemented,
                    "GDS path not compiled (rebuild with --features gds)",
                ),
            );
        },
        GdsSupport::Unavailable => {
            return Err(Status::new(Code::FailedPrecondition, unavailable));
        },
        GdsSupport::Ready => {},
    }
    let key = match key {
        Some(key) => pb_key_to_internal(key),
        None => {
            return Err(Status::new(Code::InvalidArgument, "missing key"));
        },
    };
    if ipc_handle.len() != IPC_HANDLE_SIZE {
        return Err(Status::new(Code::InvalidArgument, "ipc_handle must be 64 bytes"));
    }
    let device = if gpu_device >= 0 {
        Some(gpu_device)
    } else {
        None
    };
    Ok(GpuTransfer { key, ipc_handle, buf_size: buf_size as usize, device })
}

/// Plans a read into device memory.
pub fn plan_get_to_gpu(support: GdsSupport, req: GetToGpuRequest) -> (r: Result<
    GpuTransfer,
    Status,
>)
    ensures
        transfer_view(r) == gpu_transfer(
            support,
            "GDS runtime not available (libcufile missing or driver_open failed)"@,
            req.key.deep_view(),
            req.ipc_handle@,
            req.buf_size,
            req.gpu_device,
        ),
{
    plan_transfer(
        support,
        "GDS runtime not available (libcufile missing or driver_open failed)",
        req.key.as_ref(),
        req.ipc_handle,
        req.buf_size,
        req.gpu_device,
    )
}

/// Whether `meta` is the record of the write from device memory that `req` asks for. The time
/// of the write is the record's `last_accessed_at`.
pub open spec fn is_gpu_record(req: PutFromGpuRequest, meta: BlockMeta) -> bool {
    &&& meta.deep_view() == fresh_meta(req.metadata.deep_view(), meta.last_accessed_at)
    &&& meta.last_accessed_at >= 0
}

/// Plans a write from device memory, with the record of the object. The time of the write is
/// the record's `last_accessed_at`.
pub fn plan_put_from_gpu(support: GdsSupport, req: PutFromGpuRequest) -> (r: Result<
    (GpuTransfer, BlockMeta),
    Status,
>)
    ensures
        match gpu_transfer(
            support,
            "GDS runtime not available"@,
            req.key.deep_view(),
            req.ipc_handle@,
            req.buf_size,
            req.gpu_device,
        ) {
            Ok(transfer) => r matches Ok((t, meta)) && t.deep_view() == transfer
                && is_gpu_record(req, meta),
            Err(e) => r matches Err(s) && s.deep_view() == e,
        },
{
    let transfer = match plan_transfer(
        support,
        "GDS runtime not available",
        req.key.as_ref(),
        req.ipc_handle,
        req.buf_size,
        req.gpu_device,
    ) {
        Ok(transfer) => transfer,
        Err(e) => {
            return Err(e);
        },
    };
    Ok((transfer, meta_from_pb(req.metadata.as_ref())))
}

/// The answer to a read into device memory.
pub open spec fn gpu_read_answer(read: Option<(usize, BlockMetaView)>) -> GetToGpuResponseView {
    match read {
        Some((n, meta)) => GetToGpuResponseView {
            found: true,
            bytes_read: n as u64,
            metadata: Some(message_meta(meta)),
        },
        None => GetToGpuResponseView { found: false, bytes_read: 0, metadata: None },
    }
}

/// The answer to a read into device memory: how many bytes were read, and the metadata of the
/// object, if it exists.
pub fn get_to_gpu_response(read: Option<(usize, BlockMeta)>) -> (r: GetToGpuResponse)
    ensures
        r.deep_view() == gpu_read_answer(
            match read {
                Some((n, meta)) => Some((n, meta.deep_view())),
                None => None,
            },
        ),
{
    match read {
        Some((n, meta)) => GetToGpuResponse {
            found: true,
            bytes_read: n as u64,
            metadata: Some(meta_to_pb(&meta)),
        },
        None => GetToGpuResponse { found: false, bytes_read: 0, metadata: None },
    }
}

} // verus!
