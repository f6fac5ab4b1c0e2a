//! The reader of the image and label files of the handwritten-digit dataset.
//!
//! An image file starts with a header of four big-endian 32-bit numbers: a
//! magic number, the number of images, and the rows and the columns of each.
//! The pixels follow, one byte each, image after image in row-major order.
//! A label file has a header of eight bytes, and then one byte per image.
use crate::error::Error;
use crate::grid::Grid;
use crate::matrix::Matrix;
use crate::scalar::Scalar;
use vstd::prelude::*;

verus! {

/// The length of the header of an image file.
pub const IMAGE_HEADER: usize = 16;

/// The length of the header of a label file.
pub const LABEL_HEADER: usize = 8;

/// The number that the four bytes from `at` on spell, most significant first.
pub open spec fn big_endian(bytes: Seq<u8>, at: int) -> int {
    bytes[at] * 0x100_0000 + bytes[at + 1] * 0x1_0000 + bytes[at + 2] * 0x100 + bytes[at + 3]
}

/// The number of images, then the rows and the columns of each, as the
/// header of an image file gives them.
pub open spec fn header(images: Seq<u8>) -> (int, int, int) {
    (big_endian(images, 4), big_endian(images, 8), big_endian(images, 12))
}

/// Whether the two files are whole: the header is there, none of its numbers
/// is negative as a signed 32-bit number, and the pixels and labels of all
/// the images that it announces are there.
pub open spec fn complete(images: Seq<u8>, labels: Seq<u8>) -> bool {
    let (count, rows, cols) = header(images);
    &&& images.len() >= IMAGE_HEADER
    &&& count < 0x8000_0000
    &&& rows < 0x8000_0000
    &&& cols < 0x8000_0000
    &&& IMAGE_HEADER + count * (rows * cols) <= images.len()
    &&& LABEL_HEADER + count <= labels.len()
}

/// Image number `i` of an image file.
pub open spec fn image<T: Scalar>(images: Seq<u8>, i: int) -> Grid<T> {
    let (count, rows, cols) = header(images);
    Grid {
        rows: rows as nat,
        cols: cols as nat,
        cells: Seq::new(
            (rows * cols) as nat,
            |k: int| T::count(images[IMAGE_HEADER + i * (rows * cols) + k] as usize),
        ),
    }
}

/// The images of a dataset, and the digit that each one shows.
pub struct MnistDataset<T> {
    num_of_images: usize,
    num_of_rows: usize,
    num_of_cols: usize,
    images: Vec<Matrix<T>>,
    labels: Vec<u8>,
}

impl<T: Scalar> MnistDataset<T> {
    /// The number of images.
    pub closed spec fn count(&self) -> nat {
        self.num_of_images as nat
    }

    /// The rows and the columns of each image.
    pub closed spec fn shape(&self) -> (nat, nat) {
        (self.num_of_rows as nat, self.num_of_cols as nat)
    }

    /// The images, in the order of the file.
    pub closed spec fn pictures(&self) -> Seq<Matrix<T>> {
        self.images@
    }

    /// The labels, in the order of the file.
    pub closed spec fn digits(&self) -> Seq<u8> {
        self.labels@
    }

    /// The number of images.
    pub fn get_num_of_images(&self) -> (n: usize)
        ensures
            n == self.count(),
    {
        self.num_of_images
    }

    /// The rows of each image.
    pub fn get_num_of_rows(&self) -> (n: usize)
        ensures
            n == self.shape().0,
    {
        self.num_of_rows
    }

    /// The columns of each image.
    pub fn get_num_of_cols(&self) -> (n: usize)
        ensures
            n == self.shape().1,
    {
        self.num_of_cols
    }

    /// The images, in the order of the file.
    pub fn get_images(&self) -> (images: &Vec<Matrix<T>>)
        ensures
            images@ == self.pictures(),
    {
        &self.images
    }

    /// The labels, in the order of the file.
    pub fn get_labels(&self) -> (labels: &Vec<u8>)
        ensures
            labels@ == self.digits(),
    {
        &self.labels
    }
}

/// The number that the four bytes from `at` on spell, most significant
/// first, or `None` where it is negative as a signed 32-bit number.
fn read_count(bytes: &[u8], at: usize) -> (n: Option<usize>)
    requires
        at + 4 <= bytes@.len(),
    ensures
        match n {
            Some(x) => x == big_endian(bytes@, at as int) && x < 0x8000_0000,
            None => big_endian(bytes@, at as int) >= 0x8000_0000,
        },
{
    let high: u64 = bytes[at] as u64;
    if high >= 0x80 {
        return None;
    }
    let value: u64 = high * 0x100_0000 + (bytes[at + 1] as u64) * 0x1_0000 + (bytes[at + 2] as u64)
        * 0x100 + (bytes[at + 3] as u64);
    Some(value as usize)
}

/// The images and the labels that the two files hold, each pixel as the
/// scalar that stands for its byte. Files that are not whole are refused.
pub fn load_dataset<T: Scalar>(images: &[u8], labels: &[u8]) -> (result: Result<
    MnistDataset<T>,
    Error,
>)
    ensures
        match result {
            Ok(dataset) => {
                let (count, rows, cols) = header(images@);
                &&& complete(images@, labels@)
                &&& dataset.count() == count
                &&& dataset.shape() == (rows as nat, cols as nat)
                &&& dataset.pictures().len() == count
                &&& dataset.digits().len() == count
                &&& forall|i: int|
                    0 <= i < count ==> (#[trigger] dataset.pictures()[i]).wf() && dataset.pictures()[i]@
                        == image::<T>(images@, i)
                &&& forall|i: int|
                    0 <= i < count ==> #[trigger] dataset.digits()[i] == labels@[LABEL_HEADER + i]
            },
            Err(e) => !complete(images@, labels@) && e == Error::LengthMismatch,
        },
{
    if images.len() < IMAGE_HEADER {
        return Err(Error::LengthMismatch);
    }
    let num_of_images: usize = match read_count(images, 4) {
        Some(n) => n,
        None => {
            return Err(Error::LengthMismatch);
        },
    };
    let num_of_rows: usize = match read_count(images, 8) {
        Some(n) => n,
        None => {
            return Err(Error::LengthMismatch);
        },
    };
    let num_of_cols: usize = match read_count(images, 12) {
        Some(n) => n,
        None => {
            return Err(Error::LengthMismatch);
        },
    };
    if labels.len() < LABEL_HEADER || labels.len() - LABEL_HEADER < num_of_images {
        return Err(Error::LengthMismatch);
    }
    let pixels: usize = images.len() - IMAGE_HEADER;
    let bytes_per_image: usize = if num_of_images == 0 {
        proof {
            assert(0 * (num_of_rows * num_of_cols) == 0) by (nonlinear_arith);
        }
        0
    } else {
        match num_of_rows.checked_mul(num_of_cols) {
            Some(size) => {
                if size != 0 && num_of_images > pixels / size {
                    proof {
                        lemma_too_many(num_of_images as int, size as int, pixels as int);
                    }
                    return Err(Error::LengthMismatch);
                }
                proof {
                    if size != 0 {
                        lemma_enough(num_of_images as int, size as int, pixels as int);
                    } else {
                        assert(num_of_images * 0 == 0) by (nonlinear_arith);
                    }
                }
                size
            },
            None => {
                proof {
                    lemma_image_inside(
                        num_of_images as int,
                        num_of_rows * num_of_cols,
                        num_of_images - 1,
                    );
                }
                return Err(Error::LengthMismatch);
            },
        }
    };
    let mut image_data: Vec<Matrix<T>> = Vec::new();
    let mut label_data: Vec<u8> = Vec::new();
    let mut i: usize = 0;
    while i < num_of_images
        invariant
            complete(images@, labels@),
            header(images@) == (num_of_images as int, num_of_rows as int, num_of_cols as int),
            num_of_images > 0 ==> bytes_per_image == num_of_rows * num_of_cols,
            IMAGE_HEADER + num_of_images * bytes_per_image <= images@.len(),
            LABEL_HEADER + num_of_images <= labels@.len(),
            images@.len() <= usize::MAX,
            i <= num_of_images,
            image_data@.len() == i,
            label_data@.len() == i,
            forall|a: int|
                0 <= a < i ==> (#[trigger] image_data@[a]).wf() && image_data@[a]@ == image::<T>(
                    images@,
                    a,
                ),
            forall|a: int| 0 <= a < i ==> #[trigger] label_data@[a] == labels@[LABEL_HEADER + a],
        decreases num_of_images - i,
    {
        proof {
            lemma_image_inside(num_of_images as int, bytes_per_image as int, i as int);
        }
        let image_start: usize = IMAGE_HEADER + i * bytes_per_image;
        let mut data: Vec<T> = Vec::new();
        let mut k: usize = 0;
        while k < bytes_per_image
            invariant
                image_start + bytes_per_image <= images@.len(),
                images@.len() <= usize::MAX,
                image_start == IMAGE_HEADER + i * bytes_per_image,
                k <= bytes_per_image,
                data@.len() == k,
                forall|b: int|
                    0 <= b < k ==> data@[b] == T::count(images@[image_start + b] as usize),
            decreases bytes_per_image - k,
        {
            data.push(T::from_count(images[image_start + k] as usize));
            k += 1;
        }
        let picture = Matrix::from_vec(data, num_of_rows, num_of_cols).unwrap();
        proof {
            assert(picture@.cells =~= image::<T>(images@, i as int).cells);
        }
        image_data.push(picture);
        label_data.push(labels[LABEL_HEADER + i]);
        i += 1;
    }
    Ok(
        MnistDataset {
            num_of_images,
            num_of_rows,
            num_of_cols,
            images: image_data,
            labels: label_data,
        },
    )
}

/// More images than whole images fit do not fit.
proof fn lemma_too_many(count: int, size: int, room: int)
    requires
        0 < size,
        0 <= room,
        count > room / size,
    ensures
        count * size > room,
{
    vstd::arithmetic::div_mod::lemma_fundamental_div_mod(room, size);
    assert(count * size > room) by (nonlinear_arith)
        requires
            count >= room / size + 1,
            room == size * (room / size) + room % size,
            room % size < size,
            0 < size,
    ;
}

/// As many images as whole images fit do fit.
proof fn lemma_enough(count: int, size: int, room: int)
    requires
        0 < size,
        0 <= room,
        0 <= count <= room / size,
    ensures
        count * size <= room,
{
    vstd::arithmetic::div_mod::lemma_fundamental_div_mod(room, size);
    assert(count * size <= room) by (nonlinear_arith)
        requires
            0 <= count <= room / size,
            room == size * (room / size) + room % size,
            0 <= room % size,
            0 < size,
    ;
}

/// Each image ends where the next begins, and the last where they all end.
proof fn lemma_image_inside(count: int, size: int, i: int)
    requires
        0 <= i < count,
        0 <= size,
    ensures
        0 <= i * size,
        i * size + size <= count * size,
        size <= count * size,
{
    assert(0 <= i * size && i * size + size <= count * size) by (nonlinear_arith)
        requires
            0 <= i < count,
            0 <= size,
    ;
}

} // verus!
