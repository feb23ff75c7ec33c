use spiral_net::buffer::allocate;
use spiral_net::buffer::free;
use spiral_net::canvas::fill_canvas;
use spiral_net::canvas::to_canvas;
use spiral_net::config::ConfigError;
use spiral_net::config::MetaData;
use spiral_net::dataset::one_hot;
use spiral_net::dataset::Dataset;
use spiral_net::dataset::true_class_indices;
use spiral_net::dataset::spiral_labels;
use spiral_net::predict::argmax;
use spiral_net::predict::predict_labels;

#[test]
fn test_buffer_allocation() {
    let buffer = allocate(114514);
    free(buffer, 114514);
}

#[test]
fn test_allocate_zeroed() {
    let buffer = allocate(5);
    assert_eq!(buffer, vec![0u8; 5]);
}

#[test]
fn test_buffer_roundtrip_leaves_state_alone() {
    let labels_before = spiral_labels(3, 4);
    let metadata_before = MetaData::new(12, 3, 7).unwrap();
    let buffer = allocate(64);
    free(buffer, 64);
    let labels_after = spiral_labels(3, 4);
    let metadata_after = MetaData::new(12, 3, 7).unwrap();
    assert_eq!(labels_before, labels_after);
    assert_eq!(metadata_before, metadata_after);
}

#[test]
fn test_labels_partition() {
    let labels = spiral_labels(3, 100);
    assert_eq!(labels.len(), 300);
    for c in 0..3u32 {
        for j in 0..100usize {
            assert_eq!(labels[c as usize * 100 + j], c);
        }
    }
}

#[test]
fn test_labels_single_class() {
    let labels = spiral_labels(1, 4);
    assert_eq!(labels, vec![0, 0, 0, 0]);
}

#[test]
fn test_labels_reproducible() {
    let first = spiral_labels(5, 17);
    let second = spiral_labels(5, 17);
    assert_eq!(first, second);
}

#[test]
fn test_dataset_generate_matches_shape() {
    let metadata = MetaData::new(12, 4, 2).unwrap();
    let dataset = Dataset::generate(metadata);
    assert_eq!(dataset.metadata, metadata);
    assert_eq!(dataset.labels, vec![0, 0, 0, 1, 1, 1, 2, 2, 2, 3, 3, 3]);
}

#[test]
fn test_dataset_generate_empty() {
    let metadata = MetaData::new(0, 2, 5).unwrap();
    let dataset = Dataset::generate(metadata);
    assert_eq!(dataset.labels, Vec::<u32>::new());
}

#[test]
fn test_metadata_rejects_zero_classes() {
    assert_eq!(MetaData::new(300, 0, 100), Err(ConfigError::ZeroClasses));
}

#[test]
fn test_metadata_rejects_remainder() {
    assert_eq!(MetaData::new(301, 3, 100), Err(ConfigError::NotDivisible));
}

#[test]
fn test_metadata_divides_samples() {
    let metadata = MetaData::new(300, 3, 100).unwrap();
    assert_eq!(metadata.num_classes, 3);
    assert_eq!(metadata.samples_per_class, 100);
    assert_eq!(metadata.num_points, 300);
    assert_eq!(metadata.fc_size, 100);
}

#[test]
fn test_argmax_breaks_ties_low() {
    assert_eq!(argmax(&vec![1, 3, 3], 0, 3), 1);
    assert_eq!(argmax(&vec![5, 5, 5], 0, 3), 0);
    assert_eq!(argmax(&vec![9, 9, 0, 7], 2, 2), 1);
}

#[test]
fn test_predict_labels_rows() {
    let scores = vec![1, 3, 3, 2, 2, 2, 0, 5, 1];
    assert_eq!(predict_labels(&scores, 3, 3), vec![1, 0, 1]);
}

#[test]
fn test_predict_labels_on_probability_bits() {
    // The bit pattern of a non-negative IEEE 754 value is monotone in its
    // numeric value, so the verified argmax applied to the bit patterns picks
    // the most probable class.
    let probabilities: [f32; 6] = [0.1, 0.7, 0.2, 0.5, 0.25, 0.25];
    let scores: Vec<u32> = probabilities.iter().map(|p| p.to_bits()).collect();
    assert_eq!(predict_labels(&scores, 2, 3), vec![1, 0]);
}

#[test]
fn test_fill_canvas_bytes() {
    let grid_labels = vec![0, 2, 1];
    let red = vec![0, 100, 200];
    let green = vec![0, 120, 240];
    let blue = vec![0, 127, 255];
    let canvas = fill_canvas(&grid_labels, &red, &green, &blue);
    assert_eq!(
        canvas,
        vec![0, 0, 0, 255, 200, 240, 255, 255, 100, 120, 127, 255]
    );
}

#[test]
fn test_to_canvas_single_pixel() {
    assert_eq!(to_canvas(0, 0, 1, 1), Some((0, 0)));
    assert_eq!(to_canvas(-1, 0, 1, 1), None);
    assert_eq!(to_canvas(0, 1, 1, 1), None);
}

#[test]
fn test_to_canvas_centres_and_clips() {
    assert_eq!(to_canvas(3, -3, 100, 100), Some((53, 47)));
    assert_eq!(to_canvas(49, 49, 100, 100), Some((99, 99)));
    assert_eq!(to_canvas(50, 0, 100, 100), None);
    assert_eq!(to_canvas(-51, 0, 100, 100), None);
}

#[test]
fn test_true_class_indices_flat_positions() {
    let labels = vec![2, 0, 1];
    assert_eq!(true_class_indices(&labels, 3), vec![2, 3, 7]);
}

#[test]
fn test_one_hot_marks_true_class() {
    let labels = vec![0, 1, 2, 1];
    let cells = one_hot(&labels, 3);
    assert_eq!(cells, vec![1, 0, 0, 0, 1, 0, 0, 0, 1, 0, 1, 0]);
}
