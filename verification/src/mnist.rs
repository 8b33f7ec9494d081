//! The MNIST files: their names, where they are downloaded from, and how a
//! downloaded file is unpacked.
use std::io::Read;
use vstd::prelude::*;
use vstd::string::*;
use crate::error::{ErrorKind, ErrorView, RuntimeError};

verus! {

/// The directory the MNIST files are kept in.
pub open spec fn spec_mnist_dir() -> Seq<char> {
    "data/MNIST/raw"@
}

/// The directory the MNIST files are kept in.
pub fn mnist_dir() -> (r: &'static str)
    ensures
        r@ == spec_mnist_dir(),
{
    "data/MNIST/raw"
}

/// Where the MNIST files are downloaded from.
pub open spec fn spec_mnist_base_url() -> Seq<char> {
    "https://ossci-datasets.s3.amazonaws.com/mnist"@
}

/// The names of the four MNIST files, in the order they are fetched.
pub open spec fn spec_mnist_files() -> Seq<Seq<char>> {
    seq![
        "train-images-idx3-ubyte"@,
        "train-labels-idx1-ubyte"@,
        "t10k-images-idx3-ubyte"@,
        "t10k-labels-idx1-ubyte"@,
    ]
}

/// The names of the four MNIST files, in the order they are fetched.
pub fn mnist_files() -> (r: Vec<&'static str>)
    ensures
        r@.len() == 4,
        forall|i: int| 0 <= i < 4 ==> (#[trigger] r@[i])@ == spec_mnist_files()[i],
{
    let mut r: Vec<&'static str> = Vec::new();
    r.push("train-images-idx3-ubyte");
    r.push("train-labels-idx1-ubyte");
    r.push("t10k-images-idx3-ubyte");
    r.push("t10k-labels-idx1-ubyte");
    r
}

/// The files of `files` whose `present` flag is off, in order.
pub open spec fn files_missing(files: Seq<Seq<char>>, present: Seq<bool>) -> Seq<Seq<char>>
    decreases files.len(),
{
    if files.len() == 0 || present.len() == 0 {
        Seq::empty()
    } else {
        let earlier = files_missing(files.drop_last(), present.drop_last());
        if present.last() {
            earlier
        } else {
            earlier.push(files.last())
        }
    }
}

/// The MNIST files still to download, in the order they are fetched:
/// those whose `present` flag (one per file, in `mnist_files` order) is off.
pub fn mnist_files_missing(present: &Vec<bool>) -> (r: Vec<&'static str>)
    requires
        present@.len() == 4,
    ensures
        r@.len() == files_missing(spec_mnist_files(), present@).len(),
        forall|i: int| 0 <= i < r@.len() ==> (#[trigger] r@[i])@ == files_missing(spec_mnist_files(), present@)[i],
{
    let files = mnist_files();
    let mut r: Vec<&'static str> = Vec::new();
    let mut i: usize = 0;
    while i < 4
        invariant
            i <= 4,
            present@.len() == 4,
            files@.len() == 4,
            forall|k: int| 0 <= k < 4 ==> (#[trigger] files@[k])@ == spec_mnist_files()[k],
            r@.len() == files_missing(spec_mnist_files().take(i as int), present@.take(i as int)).len(),
            forall|k: int| 0 <= k < r@.len() ==> (#[trigger] r@[k])@ == files_missing(spec_mnist_files().take(i as int), present@.take(i as int))[k],
        decreases 4 - i,
    {
        proof {
            assert(spec_mnist_files().take(i + 1).drop_last() =~= spec_mnist_files().take(i as int));
            assert(present@.take(i + 1).drop_last() =~= present@.take(i as int));
            assert(spec_mnist_files().take(i + 1).last() == spec_mnist_files()[i as int]);
            assert(present@.take(i + 1).last() == present@[i as int]);
        }
        if !present[i] {
            r.push(files[i]);
        }
        i = i + 1;
    }
    proof {
        assert(spec_mnist_files().take(4) =~= spec_mnist_files());
        assert(present@.take(4) =~= present@);
    }
    r
}

/// The address of the compressed copy of an MNIST file.
pub fn mnist_url(file_name: &str) -> (r: String)
    ensures
        r@ == spec_mnist_base_url() + "/"@ + file_name@ + ".gz"@,
{
    let mut url = String::from_str("https://ossci-datasets.s3.amazonaws.com/mnist");
    url.append("/");
    url.append(file_name);
    url.append(".gz");
    url
}

/// What gunzipping `compressed` gives: the bytes of its first gzip member,
/// or `None` when it is not valid gzip data.
pub uninterp spec fn gz_decoded(compressed: Seq<u8>) -> Option<Seq<u8>>;

/// Decompresses gzip data with `flate2::read::GzDecoder`, reading it to the
/// end. Claimed of the crate: the outcome depends on the input bytes
/// alone, and the bytes handed back are `gz_decoded` of them. The error's
/// text is the crate's own and is not stated.
#[verifier::external_body]
fn gunzip(compressed: &[u8]) -> (r: Result<Vec<u8>, String>)
    ensures
        match r {
            Ok(v) => gz_decoded(compressed@) == Some(v@),
            Err(_) => gz_decoded(compressed@) is None,
        },
{
    let mut decoder = flate2::read::GzDecoder::new(compressed);
    let mut out: Vec<u8> = Vec::new();
    match decoder.read_to_end(&mut out) {
        Ok(_) => Ok(out),
        Err(err) => Err(err.to_string()),
    }
}

/// The message of a failed unpacking of file `file_name`.
pub open spec fn unpack_failure(file_name: Seq<char>, detail: Seq<char>) -> Seq<char> {
    "MNIST 압축 해제에 실패했습니다. `"@ + file_name + "` - "@ + detail
}

/// What unpacking gives once the decompressor has answered: its bytes,
/// or an error that names the file and says why.
pub fn unpack_outcome(file_name: &str, decoded: Result<Vec<u8>, String>) -> (r: Result<Vec<u8>, RuntimeError>)
    ensures
        match decoded {
            Ok(v) => r matches Ok(w) && w@ == v@,
            Err(d) => r matches Err(e) && e.kind@ == (ErrorView::HostFailure { detail: unpack_failure(file_name@, d@) }),
        },
{
    match decoded {
        Ok(v) => Ok(v),
        Err(detail) => {
            let mut text = String::from_str("MNIST 압축 해제에 실패했습니다. `");
            text.append(file_name);
            text.append("` - ");
            text.append(detail.as_str());
            Err(RuntimeError::new(ErrorKind::HostFailure { detail: text }))
        },
    }
}

/// Unpacks a downloaded MNIST file.
pub fn unpack_mnist_file(file_name: &str, compressed: &[u8]) -> (r: Result<Vec<u8>, RuntimeError>)
    ensures
        match r {
            Ok(v) => gz_decoded(compressed@) == Some(v@),
            Err(e) => gz_decoded(compressed@) is None && e.kind@ is HostFailure,
        },
{
    unpack_outcome(file_name, gunzip(compressed))
}

} // verus!
