//! The frames of a streamed download and the bytes that they carry.

use vstd::prelude::*;
use vstd::string::*;
use crate::error::{GrpcError, GrpcErrorView};

verus! {

/// One frame of the stream by which the registry sends a component.
#[derive(Debug, Clone, PartialEq, Eq)]
pub enum DownloadFrame {
    /// A frame without content, which the protocol does not allow.
    Empty,
    /// The next bytes of the component.
    SuccessChunk(Vec<u8>),
    /// An error of the registry, given as text.
    Error(String),
}

/// Why a frame ends the download; none for a frame that carries bytes.
pub open spec fn frame_error(f: DownloadFrame) -> Option<GrpcErrorView> {
    match f {
        DownloadFrame::Empty => Some(GrpcErrorView::Unexpected("Empty response"@)),
        DownloadFrame::SuccessChunk(_) => None,
        DownloadFrame::Error(e) => Some(GrpcErrorView::Domain(e@)),
    }
}

/// The bytes that a frame carries.
pub open spec fn frame_bytes(f: DownloadFrame) -> Seq<u8> {
    match f {
        DownloadFrame::SuccessChunk(c) => c@,
        _ => Seq::empty(),
    }
}

/// The error of the first frame of a stream that carries no bytes.
pub open spec fn first_frame_error(frames: Seq<DownloadFrame>) -> Option<GrpcErrorView>
    decreases frames.len(),
{
    if frames.len() == 0 {
        None
    } else {
        match first_frame_error(frames.drop_last()) {
            Some(e) => Some(e),
            None => frame_error(frames.last()),
        }
    }
}

/// The bytes of all frames of a stream, one after the other.
pub open spec fn concat_frames(frames: Seq<DownloadFrame>) -> Seq<u8>
    decreases frames.len(),
{
    if frames.len() == 0 {
        Seq::empty()
    } else {
        concat_frames(frames.drop_last()) + frame_bytes(frames.last())
    }
}

/// The component that a finished stream carries: the bytes of its frames in
/// order, unless one of them carries none.
pub open spec fn assemble(frames: Seq<DownloadFrame>) -> Result<Seq<u8>, GrpcErrorView> {
    match first_frame_error(frames) {
        Some(e) => Err(e),
        None => Ok(concat_frames(frames)),
    }
}

/// The error of a stream is the error of each longer stream that starts
/// with it.
pub proof fn lemma_frame_error_persists(frames: Seq<DownloadFrame>, n: int)
    requires
        0 <= n <= frames.len(),
        first_frame_error(frames.take(n)) is Some,
    ensures
        first_frame_error(frames) == first_frame_error(frames.take(n)),
    decreases frames.len() - n,
{
    if n == frames.len() {
        assert(frames.take(n) =~= frames);
    } else {
        assert(frames.drop_last().take(n) =~= frames.take(n));
        lemma_frame_error_persists(frames.drop_last(), n);
    }
}

/// Puts the frames of a finished stream together.
pub fn assemble_download(frames: Vec<DownloadFrame>) -> (r: Result<Vec<u8>, GrpcError>)
    ensures
        match r {
            Ok(bytes) => assemble(frames@) == Ok::<Seq<u8>, GrpcErrorView>(bytes@),
            Err(e) => assemble(frames@) == Err::<Seq<u8>, GrpcErrorView>(e@),
        },
{
    let mut bytes: Vec<u8> = Vec::new();
    for frame in it: frames
        invariant
            it.seq() == frames@,
            first_frame_error(frames@.take(it.index() as int)) is None,
            bytes@ == concat_frames(frames@.take(it.index() as int)),
    {
        let ghost i = it.index() as int;
        proof {
            assert(frames@.take(i + 1).drop_last() =~= frames@.take(i));
            assert(frames@.take(i + 1).last() == frames@[i]);
        }
        match frame {
            DownloadFrame::Empty => {
                proof {
                    lemma_frame_error_persists(frames@, i + 1);
                }
                return Err(GrpcError::Unexpected(String::from_str("Empty response")));
            },
            DownloadFrame::SuccessChunk(chunk) => {
                let mut chunk = chunk;
                bytes.append(&mut chunk);
            },
            DownloadFrame::Error(e) => {
                proof {
                    lemma_frame_error_persists(frames@, i + 1);
                }
                return Err(GrpcError::Domain(e));
            },
        }
    }
    proof {
        assert(frames@.take(frames@.len() as int) =~= frames@);
    }
    Ok(bytes)
}

} // verus!
