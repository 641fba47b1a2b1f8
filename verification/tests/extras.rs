use rgecko::extras::calculate_output_buffer_size;
use rgecko::argparse::parser::ExtraMode;

#[test]
fn test_extras() {}

#[test]
fn buffer_size_of_color_listing() {
    assert_eq!(
        calculate_output_buffer_size(13, ExtraMode::ListColors),
        Some((15 + 20 + 10 + 15 + 13) * 256 + 1024)
    );
    assert_eq!(calculate_output_buffer_size(600 * 1024 * 1024, ExtraMode::ListStyles), None);
}
