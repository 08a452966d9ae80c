//! The MNIST files: their IDX format, the subset that a run uses, and where
//! it goes in guest memory.
use crate::abi::{in_memory, ERR_RANGE};
use crate::memory::{held, memory_size, write_bytes};
use crate::mnist_model::INPUTS;
use crate::sha256::{be_word, hex_state, read_be_word, sha256, sha256_hex};
use vstd::prelude::*;
use vstd::string::*;

verus! {

pub const DATASET_SOURCE: &'static str = "https://github.com/cvdfoundation/mnist -> https://storage.googleapis.com/cvdf-datasets/mnist/";

/// The digits of the official training set.
pub const TRAIN_TOTAL: usize = 60_000;

/// The digits of the official test set.
pub const TEST_TOTAL: usize = 10_000;

/// Why a file is not the IDX file it should be.
#[derive(Clone, Copy, Debug, PartialEq, Eq, Structural)]
pub enum IdxError {
    Truncated,
    Header,
    Length,
    HeaderOrLength,
    Label,
}

impl IdxError {
    pub open spec fn spec_message(self, path: Seq<char>) -> Seq<char> {
        path + match self {
            IdxError::Truncated => " is truncated"@,
            IdxError::Header => " has an unexpected IDX header"@,
            IdxError::Length => " has an unexpected length"@,
            IdxError::HeaderOrLength => " has an unexpected IDX header or length"@,
            IdxError::Label => " contains a label outside 0..9"@,
        }
    }

    pub fn message(self, path: &str) -> (text: String)
        ensures
            text@ == self.spec_message(path@),
    {
        let mut text = path.to_owned();
        match self {
            IdxError::Truncated => text.append(" is truncated"),
            IdxError::Header => text.append(" has an unexpected IDX header"),
            IdxError::Length => text.append(" has an unexpected length"),
            IdxError::HeaderOrLength => text.append(" has an unexpected IDX header or length"),
            IdxError::Label => text.append(" contains a label outside 0..9"),
        }
        text
    }
}

/// What is wrong with a file of `expected` images, if anything is: a header of
/// four big-endian words (a magic number, the count, 28 and 28), then 784
/// bytes for each image.
pub open spec fn images_error(bytes: Seq<u8>, expected: int) -> Option<IdxError> {
    if bytes.len() < 16 {
        Some(IdxError::Truncated)
    } else if be_word(bytes, 0) != 2051 || be_word(bytes, 4) != expected || be_word(bytes, 8) != 28
        || be_word(bytes, 12) != 28 {
        Some(IdxError::Header)
    } else if bytes.len() != 16 + expected * INPUTS {
        Some(IdxError::Length)
    } else {
        None
    }
}

/// What is wrong with a file of `expected` labels, if anything is: a header of
/// two big-endian words (a magic number and the count), then one byte of at
/// most 9 for each label.
pub open spec fn labels_error(bytes: Seq<u8>, expected: int) -> Option<IdxError> {
    if bytes.len() < 8 {
        Some(IdxError::Truncated)
    } else if be_word(bytes, 0) != 2049 || be_word(bytes, 4) != expected || bytes.len() != 8
        + expected {
        Some(IdxError::HeaderOrLength)
    } else if exists|i: int| 8 <= i < bytes.len() && #[trigger] bytes[i] > 9 {
        Some(IdxError::Label)
    } else {
        None
    }
}

/// The bytes from `start` on.
fn tail(bytes: &[u8], start: usize) -> (rest: Vec<u8>)
    requires
        start <= bytes@.len(),
    ensures
        rest@ == bytes@.skip(start as int),
{
    let mut rest: Vec<u8> = Vec::new();
    let len: usize = bytes.len();
    let mut i: usize = start;
    while i < len
        invariant
            len == bytes@.len(),
            start <= i <= len,
            rest@ == bytes@.subrange(start as int, i as int),
        decreases len - i,
    {
        rest.push(bytes[i]);
        i = i + 1;
        assert(rest@ =~= bytes@.subrange(start as int, i as int));
    }
    assert(rest@ =~= bytes@.skip(start as int));
    rest
}

/// The pixels of an IDX image file, and the file's SHA-256 digest.
pub fn read_idx_images(bytes: &[u8], expected: usize) -> (images: Result<
    (Vec<u8>, String),
    IdxError,
>)
    requires
        bytes@.len() * 8 <= u64::MAX,
        16 + expected * INPUTS <= usize::MAX,
    ensures
        match images {
            Ok((pixels, digest)) => images_error(bytes@, expected as int) is None && pixels@
                == bytes@.skip(16) && digest@ == hex_state(sha256(bytes@)),
            Err(error) => images_error(bytes@, expected as int) == Some(error),
        },
{
    let digest = sha256_hex(bytes);
    if bytes.len() < 16 {
        return Err(IdxError::Truncated);
    }
    let count: u32 = read_be_word(bytes, 4);
    if read_be_word(bytes, 0) != 2051 || count as u64 != expected as u64 || read_be_word(bytes, 8)
        != 28 || read_be_word(bytes, 12) != 28 {
        return Err(IdxError::Header);
    }
    if bytes.len() != 16 + expected * INPUTS {
        return Err(IdxError::Length);
    }
    Ok((tail(bytes, 16), digest))
}

/// The labels of an IDX label file, and the file's SHA-256 digest.
pub fn read_idx_labels(bytes: &[u8], expected: usize) -> (labels: Result<
    (Vec<u8>, String),
    IdxError,
>)
    requires
        bytes@.len() * 8 <= u64::MAX,
        8 + expected <= usize::MAX,
    ensures
        match labels {
            Ok((labels, digest)) => labels_error(bytes@, expected as int) is None && labels@
                == bytes@.skip(8) && digest@ == hex_state(sha256(bytes@)),
            Err(error) => labels_error(bytes@, expected as int) == Some(error),
        },
{
    let digest = sha256_hex(bytes);
    let len: usize = bytes.len();
    if len < 8 {
        return Err(IdxError::Truncated);
    }
    let count: u32 = read_be_word(bytes, 4);
    if read_be_word(bytes, 0) != 2049 || count as u64 != expected as u64 || len != 8 + expected {
        return Err(IdxError::HeaderOrLength);
    }
    let mut i: usize = 8;
    while i < len
        invariant
            len == bytes@.len(),
            8 <= i <= len,
            labels_error(bytes@, expected as int) is None || labels_error(bytes@, expected as int)
                == Some(IdxError::Label),
            forall|j: int| 8 <= j < i ==> #[trigger] bytes@[j] <= 9,
        decreases len - i,
    {
        if bytes[i] > 9 {
            assert(bytes@[i as int] > 9);
            return Err(IdxError::Label);
        }
        i = i + 1;
    }
    Ok((tail(bytes, 8), digest))
}

/// The four files of the dataset.
#[derive(Clone, Copy, Debug, PartialEq, Eq, Structural)]
pub enum Part {
    TrainImages,
    TrainLabels,
    TestImages,
    TestLabels,
}

impl Part {
    pub open spec fn spec_file_name(self) -> Seq<char> {
        match self {
            Part::TrainImages => "train-images-idx3-ubyte"@,
            Part::TrainLabels => "train-labels-idx1-ubyte"@,
            Part::TestImages => "t10k-images-idx3-ubyte"@,
            Part::TestLabels => "t10k-labels-idx1-ubyte"@,
        }
    }

    pub fn file_name(self) -> (name: &'static str)
        ensures
            name@ == self.spec_file_name(),
    {
        match self {
            Part::TrainImages => "train-images-idx3-ubyte",
            Part::TrainLabels => "train-labels-idx1-ubyte",
            Part::TestImages => "t10k-images-idx3-ubyte",
            Part::TestLabels => "t10k-labels-idx1-ubyte",
        }
    }

    /// What is wrong with the part's file, if anything is.
    pub open spec fn error(self, bytes: Seq<u8>) -> Option<IdxError> {
        match self {
            Part::TrainImages => images_error(bytes, TRAIN_TOTAL as int),
            Part::TrainLabels => labels_error(bytes, TRAIN_TOTAL as int),
            Part::TestImages => images_error(bytes, TEST_TOTAL as int),
            Part::TestLabels => labels_error(bytes, TEST_TOTAL as int),
        }
    }

    /// What the part's file holds behind its header.
    pub open spec fn contents(self, bytes: Seq<u8>) -> Seq<u8> {
        match self {
            Part::TrainImages => bytes.skip(16),
            Part::TrainLabels => bytes.skip(8),
            Part::TestImages => bytes.skip(16),
            Part::TestLabels => bytes.skip(8),
        }
    }

    /// Reads the part's file.
    pub fn read(self, bytes: &[u8]) -> (contents: Result<(Vec<u8>, String), IdxError>)
        requires
            bytes@.len() * 8 <= u64::MAX,
        ensures
            match contents {
                Ok((contents, digest)) => self.error(bytes@) is None && contents@ == self.contents(
                    bytes@,
                ) && digest@ == hex_state(sha256(bytes@)),
                Err(error) => self.error(bytes@) == Some(error),
            },
    {
        match self {
            Part::TrainImages => read_idx_images(bytes, TRAIN_TOTAL),
            Part::TrainLabels => read_idx_labels(bytes, TRAIN_TOTAL),
            Part::TestImages => read_idx_images(bytes, TEST_TOTAL),
            Part::TestLabels => read_idx_labels(bytes, TEST_TOTAL),
        }
    }
}

/// A file that is accepted holds as many digits as it should, and every label
/// is one of the ten classes.
pub proof fn law_accepted_files_are_complete(part: Part, bytes: Seq<u8>)
    requires
        part.error(bytes) is None,
    ensures
        part.contents(bytes).len() == match part {
            Part::TrainImages => TRAIN_TOTAL * INPUTS,
            Part::TrainLabels => TRAIN_TOTAL as int,
            Part::TestImages => TEST_TOTAL * INPUTS,
            Part::TestLabels => TEST_TOTAL as int,
        },
        part is TrainLabels || part is TestLabels ==> forall|i: int|
            0 <= i < part.contents(bytes).len() ==> #[trigger] part.contents(bytes)[i] <= 9,
{
    if part is TrainLabels || part is TestLabels {
        assert forall|i: int| 0 <= i < part.contents(bytes).len() implies #[trigger] part.contents(
            bytes,
        )[i] <= 9 by {
            assert(part.contents(bytes)[i] == bytes[i + 8]);
        }
    }
}

/// The digits that a run trains on and is tested with.
#[derive(Debug)]
pub struct Dataset {
    pub train_images: Vec<u8>,
    pub train_labels: Vec<u8>,
    pub test_images: Vec<u8>,
    pub test_labels: Vec<u8>,
    /// Name and SHA-256 digest of each file.
    pub digests: Vec<(&'static str, String)>,
}

impl Dataset {
    /// One label for each image, and every label one of the ten classes.
    pub open spec fn wf(self) -> bool {
        &&& 1 <= self.train_labels@.len() <= TRAIN_TOTAL
        &&& 1 <= self.test_labels@.len() <= TEST_TOTAL
        &&& self.train_images@.len() == self.train_labels@.len() * INPUTS
        &&& self.test_images@.len() == self.test_labels@.len() * INPUTS
        &&& forall|i: int| 0 <= i < self.train_labels@.len() ==> #[trigger] self.train_labels@[i] <= 9
        &&& forall|i: int| 0 <= i < self.test_labels@.len() ==> #[trigger] self.test_labels@[i] <= 9
    }
}

/// `wanted` samples, but at least one and at most `total`.
pub open spec fn sample_count(wanted: usize, total: usize) -> usize {
    if wanted < 1 {
        1
    } else if wanted > total {
        total
    } else {
        wanted
    }
}

fn clamp_samples(wanted: usize, total: usize) -> (count: usize)
    requires
        1 <= total,
    ensures
        count == sample_count(wanted, total),
        1 <= count <= total,
        1 <= wanted <= total ==> count == wanted,
        wanted < 1 ==> count == 1,
        wanted > total ==> count == total,
{
    if wanted < 1 {
        1
    } else if wanted > total {
        total
    } else {
        wanted
    }
}

/// The first `n` bytes.
fn prefix(bytes: &Vec<u8>, n: usize) -> (front: Vec<u8>)
    requires
        n <= bytes@.len(),
    ensures
        front@ == bytes@.take(n as int),
{
    let mut front: Vec<u8> = Vec::new();
    let mut i: usize = 0;
    while i < n
        invariant
            i <= n <= bytes@.len(),
            front@ == bytes@.take(i as int),
        decreases n - i,
    {
        front.push(bytes[i]);
        i = i + 1;
        assert(front@ =~= bytes@.take(i as int));
    }
    front
}

/// The contents of the four files, each with its digest.
#[derive(Debug)]
pub struct DatasetFiles {
    pub train_images: (Vec<u8>, String),
    pub train_labels: (Vec<u8>, String),
    pub test_images: (Vec<u8>, String),
    pub test_labels: (Vec<u8>, String),
}

impl DatasetFiles {
    /// Every file was accepted.
    pub open spec fn complete(self) -> bool {
        &&& self.train_images.0@.len() == TRAIN_TOTAL * INPUTS
        &&& self.train_labels.0@.len() == TRAIN_TOTAL
        &&& self.test_images.0@.len() == TEST_TOTAL * INPUTS
        &&& self.test_labels.0@.len() == TEST_TOTAL
        &&& forall|i: int| 0 <= i < TRAIN_TOTAL ==> #[trigger] self.train_labels.0@[i] <= 9
        &&& forall|i: int| 0 <= i < TEST_TOTAL ==> #[trigger] self.test_labels.0@[i] <= 9
    }
}

/// Takes the first samples of both sets.
pub fn load_dataset(files: DatasetFiles, train_samples: usize, test_samples: usize) -> (dataset:
    Dataset)
    requires
        files.complete(),
    ensures
        dataset.wf(),
        1 <= train_samples <= 60_000 ==> dataset.train_labels@.len() == train_samples,
        train_samples < 1 ==> dataset.train_labels@.len() == 1,
        train_samples > 60_000 ==> dataset.train_labels@.len() == 60_000,
        1 <= test_samples <= 10_000 ==> dataset.test_labels@.len() == test_samples,
        test_samples < 1 ==> dataset.test_labels@.len() == 1,
        test_samples > 10_000 ==> dataset.test_labels@.len() == 10_000,
        dataset.train_labels@ == files.train_labels.0@.take(
            sample_count(train_samples, TRAIN_TOTAL) as int,
        ),
        dataset.train_images@ == files.train_images.0@.take(
            sample_count(train_samples, TRAIN_TOTAL) * INPUTS,
        ),
        dataset.test_labels@ == files.test_labels.0@.take(
            sample_count(test_samples, TEST_TOTAL) as int,
        ),
        dataset.test_images@ == files.test_images.0@.take(
            sample_count(test_samples, TEST_TOTAL) * INPUTS,
        ),
        dataset.digests@.len() == 4,
        dataset.digests@[0].0@ == Part::TrainImages.spec_file_name(),
        dataset.digests@[0].1@ == files.train_images.1@,
        dataset.digests@[1].0@ == Part::TrainLabels.spec_file_name(),
        dataset.digests@[1].1@ == files.train_labels.1@,
        dataset.digests@[2].0@ == Part::TestImages.spec_file_name(),
        dataset.digests@[2].1@ == files.test_images.1@,
        dataset.digests@[3].0@ == Part::TestLabels.spec_file_name(),
        dataset.digests@[3].1@ == files.test_labels.1@,
{
    let train_n: usize = clamp_samples(train_samples, TRAIN_TOTAL);
    let test_n: usize = clamp_samples(test_samples, TEST_TOTAL);
    let digests: Vec<(&'static str, String)> = vec![
        (Part::TrainImages.file_name(), files.train_images.1),
        (Part::TrainLabels.file_name(), files.train_labels.1),
        (Part::TestImages.file_name(), files.test_images.1),
        (Part::TestLabels.file_name(), files.test_labels.1),
    ];
    Dataset {
        train_images: prefix(&files.train_images.0, train_n * INPUTS),
        train_labels: prefix(&files.train_labels.0, train_n),
        test_images: prefix(&files.test_images.0, test_n * INPUTS),
        test_labels: prefix(&files.test_labels.0, test_n),
        digests,
    }
}

/// Bytes of one page of wasm memory.
pub const PAGE: u64 = 65_536;

/// Where the dataset goes in guest memory, and how many pages to add for it.
#[derive(Clone, Copy, Debug, PartialEq, Eq, Structural)]
pub struct Placement {
    pub pages: u32,
    pub train_at: u64,
    pub train_labels_at: u64,
    pub test_at: u64,
    pub test_labels_at: u64,
}

impl Dataset {
    /// The bytes of the whole dataset.
    pub open spec fn size(self) -> nat {
        self.train_images@.len() + self.train_labels@.len() + self.test_images@.len()
            + self.test_labels@.len()
    }

    /// The placement puts the four parts one behind the other from `base` on,
    /// and adds pages for all of them and one more.
    pub open spec fn placed(self, base: u64, placement: Placement) -> bool {
        &&& placement.pages == (self.size() + PAGE - 1) / PAGE as int + 1
        &&& placement.train_at == base
        &&& placement.train_labels_at == placement.train_at + self.train_images@.len()
        &&& placement.test_at == placement.train_labels_at + self.train_labels@.len()
        &&& placement.test_labels_at == placement.test_at + self.test_images@.len()
    }

    /// Places the dataset beyond the `base` bytes that the guest already has.
    pub fn place(&self, base: u64) -> (placement: Placement)
        requires
            self.wf(),
            base <= 0x1_0000_0000,
        ensures
            self.placed(base, placement),
    {
        let train_labels_at: u64 = base + self.train_images.len() as u64;
        let test_at: u64 = train_labels_at + self.train_labels.len() as u64;
        let test_labels_at: u64 = test_at + self.test_images.len() as u64;
        let needed: u64 = test_labels_at + self.test_labels.len() as u64 - base;
        let pages: u64 = (needed + (PAGE - 1)) / PAGE + 1;
        Placement {
            pages: pages as u32,
            train_at: base,
            train_labels_at,
            test_at,
            test_labels_at,
        }
    }

    /// All four parts lie in a memory of `size` bytes.
    pub open spec fn inside(self, size: u64, placement: Placement) -> bool {
        &&& in_memory(size, placement.train_at, self.train_images@.len() as int)
        &&& in_memory(size, placement.train_labels_at, self.train_labels@.len() as int)
        &&& in_memory(size, placement.test_at, self.test_images@.len() as int)
        &&& in_memory(size, placement.test_labels_at, self.test_labels@.len() as int)
    }

    /// Writes the dataset to where it was placed in guest memory.
    pub fn feed(&self, view: &wasmer::MemoryView<'_>, placement: &Placement) -> (fed: Result<
        (),
        i32,
    >)
        ensures
            fed == (if self.inside(memory_size(*view), *placement) {
                Ok::<(), i32>(())
            } else {
                Err::<(), i32>(ERR_RANGE)
            }),
            fed is Ok ==> {
                &&& held(*view, placement.train_at, self.train_images@)
                &&& held(*view, placement.train_labels_at, self.train_labels@)
                &&& held(*view, placement.test_at, self.test_images@)
                &&& held(*view, placement.test_labels_at, self.test_labels@)
            },
    {
        let train_images = self.train_images.as_slice();
        if let Err(code) = write_bytes(view, placement.train_at, train_images) {
            return Err(code);
        }
        let train_labels = self.train_labels.as_slice();
        if let Err(code) = write_bytes(view, placement.train_labels_at, train_labels) {
            return Err(code);
        }
        let test_images = self.test_images.as_slice();
        if let Err(code) = write_bytes(view, placement.test_at, test_images) {
            return Err(code);
        }
        write_bytes(view, placement.test_labels_at, self.test_labels.as_slice())
    }
}

/// The added pages hold the whole dataset: it ends where its last part does,
/// and that is inside the memory that the guest then has, so it can be fed.
pub proof fn law_placement_fits(dataset: Dataset, base: u64, placement: Placement, size: u64)
    requires
        dataset.placed(base, placement),
        size == base + placement.pages * PAGE,
    ensures
        placement.test_labels_at + dataset.test_labels@.len() == base + dataset.size(),
        base + dataset.size() <= size,
        dataset.inside(size, placement),
{
}

} // verus!
