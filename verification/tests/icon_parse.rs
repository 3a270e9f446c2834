use dsh_launcher::icon::{parse_ico, ICONDIRENTRY_SIZE, ICONDIR_SIZE};

fn build_test_ico() -> Vec<u8> {
    let sizes = [16u32, 32u32];
    let mut blobs: Vec<Vec<u8>> = Vec::new();
    for (idx, sz) in sizes.iter().enumerate() {
        let stride = (*sz * 4) as usize;
        let mut b = vec![0u8; 40 + stride * (*sz as usize)];
        b[0..4].copy_from_slice(&40u32.to_le_bytes());
        b[4..8].copy_from_slice(&(*sz as i32).to_le_bytes());
        b[8..12].copy_from_slice(&((*sz * 2) as i32).to_le_bytes());
        b[12..14].copy_from_slice(&1u16.to_le_bytes());
        b[14..16].copy_from_slice(&32u16.to_le_bytes());
        for y in 0..*sz as usize {
            for x in 0..*sz as usize {
                let p = 40 + y * stride + x * 4;
                b[p] = (idx as u8) + 1;
                b[p + 1] = 10;
                b[p + 2] = 20;
                b[p + 3] = 255;
            }
        }
        blobs.push(b);
    }
    let count = blobs.len();
    let mut out = Vec::new();
    out.extend_from_slice(&0u16.to_le_bytes());
    out.extend_from_slice(&1u16.to_le_bytes());
    out.extend_from_slice(&(count as u16).to_le_bytes());
    let mut offset = ICONDIR_SIZE + count * ICONDIRENTRY_SIZE;
    for (i, b) in blobs.iter().enumerate() {
        let sz = sizes[i] as u8;
        out.push(sz);
        out.push(sz);
        out.push(0);
        out.push(0);
        out.extend_from_slice(&1u16.to_le_bytes());
        out.extend_from_slice(&32u16.to_le_bytes());
        out.extend_from_slice(&(b.len() as u32).to_le_bytes());
        out.extend_from_slice(&(offset as u32).to_le_bytes());
        offset += b.len();
    }
    for b in &blobs {
        out.extend_from_slice(b);
    }
    out
}

#[test]
fn parses_exact_preferred_size() {
    let ico = build_test_ico();
    let img = parse_ico(&ico, 32).expect("parses");
    assert_eq!((img.width, img.height), (32, 32));
    assert_eq!(img.rgba.len(), 32 * 32 * 4);
    assert_eq!(img.rgba[2], 2, "the 32x32 entry is chosen");
    assert_eq!(img.rgba[0], 20, "red is mapped");
    assert_eq!(img.rgba[3], 255, "alpha is kept");
}

#[test]
fn falls_back_to_smaller_when_preferred_missing() {
    let ico = build_test_ico();
    let img = parse_ico(&ico, 48).expect("falls back");
    assert_eq!(img.width, 32);
}

#[test]
fn picks_smallest_larger_when_available() {
    let ico = build_test_ico();
    let img = parse_ico(&ico, 16).unwrap();
    assert_eq!(img.width, 16);
    let img2 = parse_ico(&ico, 8).unwrap();
    assert_eq!(img2.width, 16);
}

#[test]
fn handles_truncated_and_garbage_input() {
    assert!(parse_ico(&[], 32).is_none());
    assert!(parse_ico(&[0, 0, 1, 0], 32).is_none());
    assert!(parse_ico(&[0u8; 64], 32).is_none());
    let mut bad = vec![0u8, 0, 1, 0, 2, 0];
    bad.extend_from_slice(&[0u8; 10]);
    assert!(parse_ico(&bad, 32).is_none());
}

#[test]
fn rejects_out_of_range_offset() {
    let mut ico = build_test_ico();
    ico[ICONDIR_SIZE + 12..ICONDIR_SIZE + 16].copy_from_slice(&0xFFFF_0000u32.to_le_bytes());
    let img = parse_ico(&ico, 32);
    assert!(img.is_some());
}

#[test]
fn bottom_up_rows_are_flipped() {
    // the first pixel of the output is the last row of the DIB (bottom-up)
    let ico = build_test_ico();
    let img = parse_ico(&ico, 16).unwrap();
    assert_eq!(&img.rgba[0..4], &[20, 10, 1, 255]);
}
