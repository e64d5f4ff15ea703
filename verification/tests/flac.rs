use subtidal::flac::{frames, header, mark_last_block, mdat_len, metadata_blocks};

// Build one box: 4-byte big-endian size, 4-byte type, payload.
fn mp4_box(typ: &[u8; 4], payload: &[u8]) -> Vec<u8> {
    let mut out = ((payload.len() + 8) as u32).to_be_bytes().to_vec();
    out.extend_from_slice(typ);
    out.extend_from_slice(payload);
    out
}

// A metadata block: 1 byte flags+type, 3 bytes length, then data.
fn meta_block(block_type: u8, last: bool, data: &[u8]) -> Vec<u8> {
    let mut out = vec![block_type | if last { 0x80 } else { 0 }];
    out.extend_from_slice(&(data.len() as u32).to_be_bytes()[1..]);
    out.extend_from_slice(data);
    out
}

fn streaminfo() -> Vec<u8> {
    // Contents are irrelevant here; only the 34-byte length matters.
    meta_block(0, false, &[0xAB; 34])
}

// An init segment shaped like Tidal's: the fixed box path down to a
// dfLa carrying STREAMINFO.
fn init_segment(blocks: &[u8]) -> Vec<u8> {
    let mut dfla = vec![0u8; 4]; // version + flags
    dfla.extend_from_slice(blocks);
    let mut entry = vec![0u8; 28]; // AudioSampleEntry fixed fields
    entry.extend_from_slice(&mp4_box(b"dfLa", &dfla));
    let sample_entry = mp4_box(b"fLaC", &entry);
    let mut stsd = vec![0u8; 8]; // version+flags, entry_count
    stsd.extend_from_slice(&sample_entry);
    let stbl = mp4_box(b"stsd", &stsd);
    let minf = mp4_box(b"stbl", &stbl);
    let mdia = mp4_box(b"minf", &minf);
    let trak = mp4_box(b"mdia", &mdia);
    let moov = mp4_box(b"trak", &trak);
    let mut out = mp4_box(b"ftyp", b"isom");
    out.extend_from_slice(&mp4_box(b"moov", &moov));
    out
}

#[test]
fn header_is_the_magic_plus_the_metadata_from_dfla() {
    let h = header(&init_segment(&streaminfo())).expect("parses");
    assert_eq!(&h[..4], b"fLaC");
    // 4 magic + 4 block header + 34 STREAMINFO.
    assert_eq!(h.len(), 42);
    // Block type 0 is STREAMINFO, and it must be flagged last or a
    // decoder reads the first audio frame as more metadata.
    assert_eq!(h[4] & 0x7f, 0);
    assert_eq!(h[4] & 0x80, 0x80, "last-block flag must be set");
}

#[test]
fn the_last_block_is_flagged_even_with_several_blocks() {
    // STREAMINFO followed by a padding block, neither flagged.
    let mut blocks = streaminfo();
    blocks.extend_from_slice(&meta_block(1, false, &[0u8; 16]));
    let h = header(&init_segment(&blocks)).expect("parses");
    // The first block keeps its flag clear...
    assert_eq!(h[4] & 0x80, 0);
    // ...and only the trailing one is marked.
    let padding_header = 4 + 4 + 34;
    assert_eq!(h[padding_header] & 0x7f, 1);
    assert_eq!(h[padding_header] & 0x80, 0x80);
}

#[test]
fn an_already_flagged_block_stays_flagged() {
    let h = header(&init_segment(&meta_block(0, true, &[0xAB; 34]))).expect("parses");
    assert_eq!(h[4] & 0x80, 0x80);
}

#[test]
fn a_non_flac_init_segment_is_refused() {
    // No moov at all.
    assert!(header(&mp4_box(b"ftyp", b"isom")).is_none());
    // A moov whose path does not reach a dfLa.
    let moov = mp4_box(b"moov", &mp4_box(b"mvhd", &[0u8; 100]));
    assert!(header(&moov).is_none());
    // A dfLa too short to hold STREAMINFO.
    assert!(header(&init_segment(&meta_block(0, false, &[0u8; 4]))).is_none());
}

#[test]
fn frames_keeps_only_the_mdat_payload() {
    let mut seg = mp4_box(b"moof", &[0x11; 40]);
    seg.extend_from_slice(&mp4_box(b"mdat", &[0x22; 100]));
    let f = frames(&seg);
    assert_eq!(f.len(), 100);
    assert!(f.iter().all(|b| *b == 0x22), "moof must not leak into the audio");
}

#[test]
fn frames_concatenates_several_mdats_in_order() {
    let mut seg = mp4_box(b"styp", b"msdh");
    seg.extend_from_slice(&mp4_box(b"moof", &[0x11; 8]));
    seg.extend_from_slice(&mp4_box(b"mdat", &[0xAA; 10]));
    seg.extend_from_slice(&mp4_box(b"moof", &[0x11; 8]));
    seg.extend_from_slice(&mp4_box(b"mdat", &[0xBB; 20]));
    let f = frames(&seg);
    assert_eq!(f.len(), 30);
    assert_eq!(f[0], 0xAA);
    assert_eq!(f[29], 0xBB);
}

#[test]
fn a_truncated_box_stops_the_walk_instead_of_panicking() {
    // A header claiming more bytes than exist.
    let mut seg = 999u32.to_be_bytes().to_vec();
    seg.extend_from_slice(b"mdat");
    seg.extend_from_slice(&[0u8; 10]);
    assert!(frames(&seg).is_empty());
    // A size smaller than the header itself must not loop forever.
    let mut seg = 2u32.to_be_bytes().to_vec();
    seg.extend_from_slice(b"mdat");
    assert!(frames(&seg).is_empty());
    // Garbage is simply not FLAC.
    assert!(header(&[0u8; 64]).is_none());
    assert!(frames(&[]).is_empty());
}

#[test]
fn a_64_bit_box_size_is_understood() {
    // size=1 means the real length follows the type as a u64. Large
    // mdat boxes use this form.
    let payload = [0x33u8; 50];
    let mut seg = 1u32.to_be_bytes().to_vec();
    seg.extend_from_slice(b"mdat");
    seg.extend_from_slice(&(16u64 + payload.len() as u64).to_be_bytes());
    seg.extend_from_slice(&payload);
    assert_eq!(frames(&seg).len(), 50);
}

#[test]
fn mdat_len_is_read_from_headers_without_the_audio() {
    let mut seg = mp4_box(b"moof", &[0x11; 200]);
    seg.extend_from_slice(&mp4_box(b"mdat", &[0x22; 500_000]));
    // Only the first kilobyte is needed to learn the payload size,
    // which is the whole point: no audio is downloaded to measure.
    let prefix = &seg[..1024];
    assert_eq!(mdat_len(prefix), Some(500_000));
    // And it agrees with what the full extraction produces.
    assert_eq!(frames(&seg).len() as u64, mdat_len(prefix).unwrap());
}

#[test]
fn a_leading_styp_is_skipped() {
    let mut seg = mp4_box(b"styp", b"msdh");
    seg.extend_from_slice(&mp4_box(b"moof", &[0x11; 100]));
    seg.extend_from_slice(&mp4_box(b"mdat", &[0x22; 4096]));
    assert_eq!(mdat_len(&seg[..512]), Some(4096));
}

#[test]
fn a_64_bit_mdat_reports_its_real_length() {
    let mut seg = mp4_box(b"moof", &[0x11; 16]);
    seg.extend_from_slice(&1u32.to_be_bytes());
    seg.extend_from_slice(b"mdat");
    seg.extend_from_slice(&(16u64 + 9000).to_be_bytes());
    assert_eq!(mdat_len(&seg), Some(9000));
}

#[test]
fn a_prefix_too_short_to_reach_mdat_reports_nothing() {
    // A moof larger than the prefix: better to say "unknown" than to
    // guess a length the body will not match.
    let mut seg = mp4_box(b"moof", &[0x11; 4000]);
    seg.extend_from_slice(&mp4_box(b"mdat", &[0x22; 100]));
    assert_eq!(mdat_len(&seg[..1024]), None);
    assert_eq!(mdat_len(&[]), None);
    // A zero size ("to end of file") gives nothing to skip by.
    let mut bad = 0u32.to_be_bytes().to_vec();
    bad.extend_from_slice(b"moof");
    assert_eq!(mdat_len(&bad), None);
}

#[test]
fn two_segments_in_a_row_give_the_frames_of_both() {
    let mut a = mp4_box(b"moof", &[1; 12]);
    a.extend_from_slice(&mp4_box(b"mdat", &[2, 3, 4]));
    let b = mp4_box(b"mdat", &[5, 6]);
    let mut both = a.clone();
    both.extend_from_slice(&b);
    let mut expected = frames(&a);
    expected.extend_from_slice(&frames(&b));
    assert_eq!(frames(&both), expected);
    assert_eq!(expected, vec![2, 3, 4, 5, 6]);
}

#[test]
fn a_box_to_the_end_of_the_file_is_taken_whole() {
    let mut seg = 0u32.to_be_bytes().to_vec();
    seg.extend_from_slice(b"mdat");
    seg.extend_from_slice(&[7, 8, 9]);
    assert_eq!(frames(&seg), vec![7, 8, 9]);
}

#[test]
fn a_64_bit_size_past_the_end_stops_the_walk() {
    let mut seg = 1u32.to_be_bytes().to_vec();
    seg.extend_from_slice(b"mdat");
    seg.extend_from_slice(&u64::MAX.to_be_bytes());
    seg.extend_from_slice(&[0; 8]);
    assert!(frames(&seg).is_empty());
    assert_eq!(mdat_len(&seg), Some(u64::MAX - 16));
}

#[test]
fn marking_blocks_twice_changes_nothing() {
    let mut blocks = streaminfo();
    blocks.extend_from_slice(&meta_block(1, false, &[9; 5]));
    mark_last_block(&mut blocks);
    let once = blocks.clone();
    mark_last_block(&mut blocks);
    assert_eq!(blocks, once);
    assert_eq!(once[0], 0);
    assert_eq!(once[38], 0x81);
}

#[test]
fn metadata_blocks_are_found_at_the_end_of_the_path() {
    let init = init_segment(&streaminfo());
    assert_eq!(metadata_blocks(&init), Some(streaminfo().as_slice()));
}
