use srtui::recording::{pcm_bytes, recorder_arguments, recording_file_name, RecordingFormat};

const ALL: [RecordingFormat; 4] =
    [RecordingFormat::Wav, RecordingFormat::Mp3, RecordingFormat::Flac, RecordingFormat::Ogg];

#[test]
fn formats_form_a_cycle() {
    for (i, format) in ALL.into_iter().enumerate() {
        assert_eq!(format.next(), ALL[(i + 1) % 4]);
        assert_eq!(format.next().next().next().next(), format);
    }
}

#[test]
fn formats_have_their_extensions() {
    assert_eq!(ALL.map(|format| format.extension()), ["wav", "mp3", "flac", "ogg"]);
}

#[test]
fn the_encoder_gets_its_arguments() {
    let common = [
        "-hide_banner", "-loglevel", "error", "-f", "s16le", "-ar", "48000", "-ac", "2", "-i",
        "pipe:0", "-y",
    ];
    let codecs: [&[&str]; 4] = [
        &[],
        &["-c:a", "libmp3lame", "-b:a", "192k"],
        &["-c:a", "flac"],
        &["-c:a", "libvorbis", "-q:a", "5"],
    ];
    for (format, codec) in ALL.into_iter().zip(codecs) {
        assert_eq!(recorder_arguments(48000, 2, format), [&common, codec].concat());
    }
}

#[test]
fn recordings_are_named_after_channel_and_time() {
    assert_eq!(
        recording_file_name("P4 Gävleborg", 1700000000, RecordingFormat::Ogg),
        "P4_G_vleborg-1700000000.ogg"
    );
    assert_eq!(recording_file_name("", 0, RecordingFormat::Wav), "-0.wav");
}

#[test]
fn recording_names_stay_in_their_directory() {
    let name = recording_file_name("../etc/\0x y", u64::MAX, RecordingFormat::Flac);
    assert_eq!(name, "___etc__x_y-18446744073709551615.flac");
    assert!(name.chars().all(|c| c.is_ascii_alphanumeric() || "_-.".contains(c)));
    assert_eq!(
        recording_file_name("___etc__x_y", 1, RecordingFormat::Wav),
        "___etc__x_y-1.wav"
    );
}

#[test]
fn samples_are_written_low_byte_first() {
    assert_eq!(pcm_bytes(&[]), Vec::<u8>::new());
    assert_eq!(pcm_bytes(&[0x1234, -2]), [0x34, 0x12, 0xfe, 0xff]);
    let all: Vec<i16> = (i16::MIN..=i16::MAX).collect();
    let wanted: Vec<u8> = all.iter().flat_map(|sample| sample.to_le_bytes()).collect();
    assert_eq!(pcm_bytes(&all), wanted);
}
