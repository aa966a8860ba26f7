use fast_file::util::{
    decimal_string, format_size, format_time_ago, get_file_icon, interpret_selection,
    matches_shown, parse_number, preview_line, round_to_nearest_even, rounding_unit_of, Selection,
};

fn by_floats(bytes: u64) -> String {
    let units = ["B", "KB", "MB", "GB"];
    let mut size = bytes as f64;
    let mut unit = 0;
    while size >= 1024.0 && unit < units.len() - 1 {
        size /= 1024.0;
        unit += 1;
    }
    if unit == 0 {
        format!("{:.0}{}", size, units[unit])
    } else {
        format!("{:.1}{}", size, units[unit])
    }
}

#[test]
fn sizes_below_one_kilobyte_are_whole_bytes() {
    assert_eq!(format_size(0), "0B");
    assert_eq!(format_size(1), "1B");
    assert_eq!(format_size(1023), "1023B");
}

#[test]
fn larger_sizes_have_one_decimal() {
    assert_eq!(format_size(1024), "1.0KB");
    assert_eq!(format_size(1536), "1.5KB");
    assert_eq!(format_size(1048576), "1.0MB");
    assert_eq!(format_size(10 * 1024 * 1024), "10.0MB");
    assert_eq!(format_size(1073741824), "1.0GB");
    assert_eq!(format_size(5 * 1073741824 + 1073741824 / 2), "5.5GB");
}

#[test]
fn sizes_are_rounded_to_the_nearest_tenth() {
    assert_eq!(format_size(1048575), "1024.0KB");
    assert_eq!(format_size(1024 + 51), "1.0KB");
    assert_eq!(format_size(1024 + 52), "1.1KB");
    assert_eq!(format_size(1073741823), "1024.0MB");
}

#[test]
fn a_size_halfway_between_two_tenths_goes_to_the_even_one() {
    assert_eq!(format_size(1280), "1.2KB");
    assert_eq!(format_size(1792), "1.8KB");
    assert_eq!(format_size(1024 + 3 * 256), "1.8KB");
    assert_eq!(format_size(5 * 256 * 1024), "1.2MB");
}

#[test]
fn sizes_beyond_53_bits_are_rounded_to_53_bits_first() {
    assert_eq!(format_size(14248172263115954586), "13269644475.6GB");
    assert_eq!(format_size((1 << 53) + 1), "8388608.0GB");
    assert_eq!(format_size(u64::MAX - 1024), "17179869184.0GB");
    for bytes in [(1u64 << 53) - 1, 1 << 53, (1 << 53) + 1, (1 << 53) + 3, 1 << 63, u64::MAX] {
        assert_eq!(format_size(bytes), by_floats(bytes), "for {} bytes", bytes);
    }
}

#[test]
fn gigabytes_are_the_largest_unit() {
    assert_eq!(format_size(1024 * 1073741824), "1024.0GB");
    assert_eq!(format_size(u64::MAX), "17179869184.0GB");
}

#[test]
fn sizes_agree_with_floating_point_formatting() {
    let mut samples: Vec<u64> = vec![0, 1, 999, 1023, 1024, 1025, 1280, 1536, 1792, 2047, 2048];
    let mut x: u64 = 12345;
    for _ in 0..2000 {
        x = x.wrapping_mul(6364136223846793005).wrapping_add(1442695040888963407);
        samples.push(x);
        samples.push(x >> 5);
        samples.push(x >> 11);
        samples.push(x >> 30);
        samples.push(x >> 44);
    }
    for k in 1..40u64 {
        samples.push(256 * (2 * k + 1));
        samples.push(256 * 1024 * (2 * k + 1));
        samples.push((1u64 << 30) / 4 * (2 * k + 1));
    }
    for bytes in samples {
        assert_eq!(format_size(bytes), by_floats(bytes), "for {} bytes", bytes);
    }
}

#[test]
fn ages_in_the_largest_unit_that_is_filled() {
    assert_eq!(format_time_ago(0), "0s ago");
    assert_eq!(format_time_ago(59), "59s ago");
    assert_eq!(format_time_ago(60), "1m ago");
    assert_eq!(format_time_ago(3599), "59m ago");
    assert_eq!(format_time_ago(3600), "1h ago");
    assert_eq!(format_time_ago(86399), "23h ago");
    assert_eq!(format_time_ago(86400), "1d ago");
    assert_eq!(format_time_ago(10 * 86400 + 5), "10d ago");
    assert_eq!(format_time_ago(u64::MAX), "213503982334601d ago");
}

#[test]
fn decimal_string_writes_every_digit() {
    assert_eq!(decimal_string(0), "0");
    assert_eq!(decimal_string(7), "7");
    assert_eq!(decimal_string(10), "10");
    assert_eq!(decimal_string(1234567890), "1234567890");
    assert_eq!(decimal_string(u64::MAX), "18446744073709551615");
}

#[test]
fn short_lines_are_shown_whole() {
    assert_eq!(preview_line(""), "");
    assert_eq!(preview_line("fn main() {}"), "fn main() {}");
    let exact = "x".repeat(100);
    assert_eq!(preview_line(&exact), exact);
}

#[test]
fn long_lines_are_cut_to_97_bytes_and_three_dots() {
    let long = "y".repeat(101);
    assert_eq!(preview_line(&long), format!("{}...", "y".repeat(97)));
    let longer = format!("{}{}", "a".repeat(97), "b".repeat(500));
    assert_eq!(preview_line(&longer), format!("{}...", "a".repeat(97)));
}

#[test]
fn a_cut_never_splits_a_character() {
    let long = "é".repeat(60);
    assert_eq!(preview_line(&long), format!("{}...", "é".repeat(48)));
    let mixed = format!("a{}", "é".repeat(60));
    assert_eq!(preview_line(&mixed), format!("a{}...", "é".repeat(48)));
    let crabs = "🦀".repeat(26);
    assert_eq!(preview_line(&crabs), format!("{}...", "🦀".repeat(24)));
}

#[test]
fn three_matches_are_shown() {
    assert_eq!(matches_shown(0), (0, 0));
    assert_eq!(matches_shown(2), (2, 0));
    assert_eq!(matches_shown(3), (3, 0));
    assert_eq!(matches_shown(4), (3, 1));
    assert_eq!(matches_shown(usize::MAX), (3, usize::MAX - 3));
}

#[test]
fn numbers_are_read_from_decimal_digits() {
    let read = |s: &str| parse_number(&s.chars().collect());
    assert_eq!(read("0"), Some(0));
    assert_eq!(read("7"), Some(7));
    assert_eq!(read("007"), Some(7));
    assert_eq!(read("+12"), Some(12));
    assert_eq!(read("1234567890"), Some(1234567890));
    assert_eq!(read(""), None);
    assert_eq!(read("+"), None);
    assert_eq!(read("-1"), None);
    assert_eq!(read("++1"), None);
    assert_eq!(read("1+"), None);
    assert_eq!(read("12a"), None);
    assert_eq!(read(" 12"), None);
    assert_eq!(read("１２"), None);
    for s in ["0", "42", "+42", "-0", "", "+", "18446744073709551615", "18446744073709551616",
        "99999999999999999999999", "000000000000000000000000001", "4294967295", "4294967296"]
    {
        assert_eq!(read(s), s.parse::<usize>().ok(), "for {:?}", s);
    }
}

#[test]
fn answers_to_a_choice() {
    assert_eq!(interpret_selection("q\n", 5), Selection::Quit);
    assert_eq!(interpret_selection("  QUIT  ", 5), Selection::Quit);
    assert_eq!(interpret_selection("Exit", 5), Selection::Quit);
    assert_eq!(interpret_selection("1\n", 5), Selection::Pick(0));
    assert_eq!(interpret_selection(" 5 ", 5), Selection::Pick(4));
    assert_eq!(interpret_selection("+3", 5), Selection::Pick(2));
    assert_eq!(interpret_selection("0", 5), Selection::Invalid);
    assert_eq!(interpret_selection("6", 5), Selection::Invalid);
    assert_eq!(interpret_selection("", 5), Selection::Invalid);
    assert_eq!(interpret_selection("two", 5), Selection::Invalid);
    assert_eq!(interpret_selection("quit now", 5), Selection::Invalid);
    assert_eq!(interpret_selection("1", 0), Selection::Invalid);
    assert_eq!(interpret_selection("99999999999999999999999", 5), Selection::Invalid);
}

#[test]
fn directories_have_their_own_icon() {
    assert_eq!(get_file_icon(true, None), "📁");
    assert_eq!(get_file_icon(true, Some("rs")), "📁");
}

#[test]
fn files_have_an_icon_by_extension() {
    let table = [
        ("rs", "🦀"),
        ("js", "📜"),
        ("ts", "📜"),
        ("py", "🐍"),
        ("java", "☕"),
        ("cpp", "💠"),
        ("cxx", "💠"),
        ("cc", "💠"),
        ("c", "🔵"),
        ("h", "📘"),
        ("hpp", "📘"),
        ("go", "🐹"),
        ("rb", "💎"),
        ("php", "🐘"),
        ("sh", "🐚"),
        ("bash", "🐚"),
        ("swift", "🍎"),
        ("kt", "🤖"),
        ("kts", "🤖"),
        ("cs", "🎯"),
        ("json", "📋"),
        ("yaml", "⚙️"),
        ("yml", "⚙️"),
        ("toml", "🛠️"),
        ("ini", "📑"),
        ("csv", "📊"),
        ("xml", "🗂️"),
        ("md", "📝"),
        ("txt", "📄"),
        ("html", "🌐"),
        ("htm", "🌐"),
        ("css", "🎨"),
        ("pdf", "📕"),
        ("png", "🖼️"),
        ("jpg", "🖼️"),
        ("jpeg", "🖼️"),
        ("gif", "🖼️"),
        ("bmp", "🖼️"),
        ("svg", "🖼️"),
        ("ico", "🔖"),
        ("mp4", "🎬"),
        ("mkv", "🎬"),
        ("avi", "🎬"),
        ("mov", "🎬"),
        ("webm", "🎬"),
        ("mp3", "🎵"),
        ("wav", "🎵"),
        ("flac", "🎵"),
        ("ogg", "🎵"),
        ("m4a", "🎵"),
        ("zip", "📦"),
        ("tar", "📦"),
        ("gz", "📦"),
        ("bz2", "📦"),
        ("xz", "📦"),
        ("7z", "📦"),
        ("exe", "⚙️"),
        ("bin", "⚙️"),
        ("dll", "⚙️"),
        ("lock", "🔒"),
        ("log", "📜"),
    ];
    for (extension, icon) in table {
        assert_eq!(get_file_icon(false, Some(extension)), icon, "for {}", extension);
    }
}

#[test]
fn other_files_have_the_icon_of_a_plain_file() {
    assert_eq!(get_file_icon(false, None), "📄");
    assert_eq!(get_file_icon(false, Some("")), "📄");
    assert_eq!(get_file_icon(false, Some("RS")), "📄");
    assert_eq!(get_file_icon(false, Some("unknown")), "📄");
}

#[test]
fn nearest_even_rounding() {
    assert_eq!(round_to_nearest_even(0, 4), 0);
    assert_eq!(round_to_nearest_even(1, 4), 0);
    assert_eq!(round_to_nearest_even(2, 4), 0);
    assert_eq!(round_to_nearest_even(3, 4), 1);
    assert_eq!(round_to_nearest_even(6, 4), 2);
    assert_eq!(round_to_nearest_even(10, 4), 2);
    assert_eq!(round_to_nearest_even(11, 4), 3);
    assert_eq!(round_to_nearest_even(7, 1), 7);
}

#[test]
fn rounding_unit_doubles_with_every_bit_beyond_53() {
    assert_eq!(rounding_unit_of(0), 1);
    assert_eq!(rounding_unit_of((1 << 53) - 1), 1);
    assert_eq!(rounding_unit_of(1 << 53), 2);
    assert_eq!(rounding_unit_of((1 << 54) - 1), 2);
    assert_eq!(rounding_unit_of(1 << 54), 4);
    assert_eq!(rounding_unit_of(u64::MAX), 2048);
}
