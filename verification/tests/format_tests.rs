use dir_reveal::kind::DirectoryEntryKind;
use dir_reveal::kind::FileTypeFlags;
use dir_reveal::locale::NumberFormatter;
use dir_reveal::permissions::UnixPermissions;
use dir_reveal::permissions::parse_octal;
use dir_reveal::sizes::DigitalSize;

fn flags(
    is_file: bool,
    is_dir: bool,
    is_socket: bool,
    is_char_device: bool,
    is_block_device: bool,
    is_fifo: bool,
) -> FileTypeFlags {
    FileTypeFlags { is_file, is_dir, is_socket, is_char_device, is_block_device, is_fifo }
}

#[test]
fn classification_follows_precedence() {
    assert_eq!(
        DirectoryEntryKind::from(flags(true, true, true, true, true, true)),
        DirectoryEntryKind::File
    );
    assert_eq!(
        DirectoryEntryKind::from(flags(false, true, true, true, true, true)),
        DirectoryEntryKind::Directory
    );
    assert_eq!(
        DirectoryEntryKind::from(flags(false, false, true, true, true, true)),
        DirectoryEntryKind::Socket
    );
    assert_eq!(
        DirectoryEntryKind::from(flags(false, false, false, true, true, true)),
        DirectoryEntryKind::Character
    );
    assert_eq!(
        DirectoryEntryKind::from(flags(false, false, false, false, true, true)),
        DirectoryEntryKind::Block
    );
    assert_eq!(
        DirectoryEntryKind::from(flags(false, false, false, false, false, true)),
        DirectoryEntryKind::Fifo
    );
    assert_eq!(
        DirectoryEntryKind::from(flags(false, false, false, false, false, false)),
        DirectoryEntryKind::Unknown
    );
}

#[test]
fn classification_is_deterministic() {
    let sample = flags(false, false, true, false, true, false);
    assert_eq!(DirectoryEntryKind::from(sample), DirectoryEntryKind::from(sample));
}

#[test]
fn kind_names() {
    assert_eq!(DirectoryEntryKind::File.as_string(), "File");
    assert_eq!(DirectoryEntryKind::Directory.as_string(), "Directory");
    assert_eq!(DirectoryEntryKind::Socket.as_string(), "Socket");
    assert_eq!(DirectoryEntryKind::Character.as_string(), "Character");
    assert_eq!(DirectoryEntryKind::Block.as_string(), "Block");
    assert_eq!(DirectoryEntryKind::Fifo.as_string(), "Fifo");
    assert_eq!(DirectoryEntryKind::Unknown.as_string(), "Unknown");
}

#[test]
fn symbolic_permissions() {
    assert_eq!(UnixPermissions::from(0o644).as_string(), "rw-r--r--");
    assert_eq!(UnixPermissions::from(0o755).as_string(), "rwxr-xr-x");
    assert_eq!(UnixPermissions::from(0o000).as_string(), "---------");
    assert_eq!(UnixPermissions::from(0o777).as_string(), "rwxrwxrwx");
    assert_eq!(UnixPermissions::from(0o100644).as_string(), "rw-r--r--");
}

#[test]
fn octal_display_shows_low_bits() {
    assert_eq!(UnixPermissions::from(0o100644).as_bits_sum(), 0o644);
    assert_eq!(UnixPermissions::from(0o100644).as_octal_string(), "644");
    assert_eq!(UnixPermissions::from(0o755).as_octal_string(), "755");
    assert_eq!(UnixPermissions::from(0o7).as_octal_string(), "7");
    assert_eq!(UnixPermissions::from(0).as_octal_string(), "0");
}

#[test]
fn octal_round_trip_recovers_low_bits() {
    for mode in [0u32, 0o7, 0o644, 0o755, 0o100644, 0o120777, u32::MAX] {
        let permissions = UnixPermissions::from(mode);
        let display = permissions.as_octal_string();
        assert_eq!(parse_octal(display.as_str()), Some(mode & 0o777));
    }
}

#[test]
fn octal_parsing_rejects_bad_input() {
    assert_eq!(parse_octal(""), None);
    assert_eq!(parse_octal("9"), None);
    assert_eq!(parse_octal("64x"), None);
    assert_eq!(parse_octal("777777777777"), None);
    assert_eq!(parse_octal("644"), Some(0o644));
    assert_eq!(parse_octal("0"), Some(0));
}

#[test]
fn sizes_scale_by_unit() {
    assert_eq!(DigitalSize::from(0).as_string(), "0B");
    assert_eq!(DigitalSize::from(10).as_string(), "10B");
    assert_eq!(DigitalSize::from(1023).as_string(), "1023B");
    assert_eq!(DigitalSize::from(1024).as_string(), "1.0K");
    assert_eq!(DigitalSize::from(1536).as_string(), "1.5K");
    assert_eq!(DigitalSize::from(4096).as_string(), "4.0K");
    assert_eq!(DigitalSize::from(1024 * 1024).as_string(), "1.0M");
    assert_eq!(DigitalSize::from(3 * 1024 * 1024 * 1024 / 2).as_string(), "1.5G");
    assert_eq!(DigitalSize::from(1024 * 1024 * 1024 * 1024).as_string(), "1.0T");
    assert_eq!(DigitalSize::from(1024 * 1024 * 1024 * 1024 * 1024).as_string(), "1.0P");
    assert_eq!(DigitalSize::from(1024 * 1024 * 1024 * 1024 * 1024 * 1024).as_string(), "1.0E");
    assert_eq!(DigitalSize::from(u64::MAX).as_string(), "15.9E");
}

#[test]
fn grouped_numbers() {
    assert_eq!(NumberFormatter::format_u32(0), "0");
    assert_eq!(NumberFormatter::format_u32(999), "999");
    assert_eq!(NumberFormatter::format_u32(1000), "1,000");
    assert_eq!(NumberFormatter::format_u32(1002003), "1,002,003");
    assert_eq!(NumberFormatter::format_u32(1234567), "1,234,567");
    assert_eq!(NumberFormatter::format_u32(u32::MAX), "4,294,967,295");
}
