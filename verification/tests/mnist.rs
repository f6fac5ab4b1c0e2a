use neural_network::error::Error;
use neural_network::mnist::load_dataset;
use neural_network::mnist::MnistDataset;

fn image_file(count: u32, rows: u32, cols: u32, pixels: &[u8]) -> Vec<u8> {
    let mut bytes = vec![0, 0, 8, 3];
    bytes.extend_from_slice(&count.to_be_bytes());
    bytes.extend_from_slice(&rows.to_be_bytes());
    bytes.extend_from_slice(&cols.to_be_bytes());
    bytes.extend_from_slice(pixels);
    bytes
}

fn label_file(count: u32, labels: &[u8]) -> Vec<u8> {
    let mut bytes = vec![0, 0, 8, 1];
    bytes.extend_from_slice(&count.to_be_bytes());
    bytes.extend_from_slice(labels);
    bytes
}

#[test]
fn load_dataset_reads_images_and_labels() {
    let images = image_file(2, 2, 3, &[1, 2, 3, 4, 5, 6, 250, 251, 252, 253, 254, 255]);
    let labels = label_file(2, &[7, 9]);
    let dataset: MnistDataset<i64> = load_dataset(&images, &labels).unwrap();
    assert_eq!(dataset.get_num_of_images(), 2);
    assert_eq!(dataset.get_num_of_rows(), 2);
    assert_eq!(dataset.get_num_of_cols(), 3);
    assert_eq!(dataset.get_images().len(), 2);
    assert_eq!(dataset.get_images()[0].get_num_rows(), 2);
    assert_eq!(dataset.get_images()[0].get_num_cols(), 3);
    assert_eq!(dataset.get_images()[0].get_data(), &vec![1, 2, 3, 4, 5, 6]);
    assert_eq!(dataset.get_images()[1].get_data(), &vec![250, 251, 252, 253, 254, 255]);
    assert_eq!(dataset.get_labels(), &vec![7, 9]);
}

#[test]
fn load_dataset_reads_numbers_most_significant_byte_first() {
    let images = image_file(1, 1, 258, &[9; 258]);
    let labels = label_file(1, &[3]);
    let dataset: MnistDataset<i64> = load_dataset(&images, &labels).unwrap();
    assert_eq!(dataset.get_num_of_cols(), 258);
    assert_eq!(dataset.get_images()[0].get_data().len(), 258);
}

#[test]
fn load_dataset_takes_more_bytes_than_it_needs() {
    let images = image_file(1, 1, 2, &[1, 2, 3, 4]);
    let labels = label_file(1, &[3, 4, 5]);
    let dataset: MnistDataset<i64> = load_dataset(&images, &labels).unwrap();
    assert_eq!(dataset.get_images().len(), 1);
    assert_eq!(dataset.get_images()[0].get_data(), &vec![1, 2]);
    assert_eq!(dataset.get_labels(), &vec![3]);
}

#[test]
fn load_dataset_of_no_images() {
    let images = image_file(0, 28, 28, &[]);
    let labels = label_file(0, &[]);
    let dataset: MnistDataset<i64> = load_dataset(&images, &labels).unwrap();
    assert_eq!(dataset.get_num_of_images(), 0);
    assert_eq!(dataset.get_num_of_rows(), 28);
    assert_eq!(dataset.get_images().len(), 0);
    assert_eq!(dataset.get_labels().len(), 0);
}

#[test]
fn load_dataset_rejects_files_cut_short() {
    let labels = label_file(2, &[7, 9]);
    let no_header: Result<MnistDataset<i64>, Error> = load_dataset(&[0, 0, 8, 3, 0, 0], &labels);
    assert!(matches!(no_header, Err(Error::LengthMismatch)));
    let images = image_file(2, 2, 2, &[1, 2, 3, 4, 5, 6, 7]);
    let cut: Result<MnistDataset<i64>, Error> = load_dataset(&images, &labels);
    assert!(matches!(cut, Err(Error::LengthMismatch)));
    let images = image_file(2, 2, 2, &[1, 2, 3, 4, 5, 6, 7, 8]);
    let few: Result<MnistDataset<i64>, Error> = load_dataset(&images, &label_file(2, &[7]));
    assert!(matches!(few, Err(Error::LengthMismatch)));
    let none: Result<MnistDataset<i64>, Error> = load_dataset(&images, &[0, 0, 8]);
    assert!(matches!(none, Err(Error::LengthMismatch)));
}

#[test]
fn load_dataset_rejects_negative_numbers() {
    let labels = label_file(1, &[7]);
    let images = image_file(0x8000_0001, 1, 1, &[1]);
    let negative: Result<MnistDataset<i64>, Error> = load_dataset(&images, &labels);
    assert!(matches!(negative, Err(Error::LengthMismatch)));
    let images = image_file(1, 0xffff_ffff, 1, &[1]);
    let negative: Result<MnistDataset<i64>, Error> = load_dataset(&images, &labels);
    assert!(matches!(negative, Err(Error::LengthMismatch)));
}
