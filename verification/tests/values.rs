use std::borrow::Cow;
use std::collections::HashMap;
use std::io::{Cursor, Read, Seek, SeekFrom};

use jamjar::audio::{resolve_volume, AudioBytes, AudioVolumes, Gain, Level, UNITY_BITS};

fn product(gain: Gain) -> f32 {
    f32::from_bits(gain.asset.to_bits())
        * f32::from_bits(gain.category.to_bits())
        * f32::from_bits(gain.instance.to_bits())
}

fn of(x: f32) -> Level {
    Level::from_bits(x.to_bits())
}

#[test]
fn audio_bytes_keep_their_content() {
    let borrowed = AudioBytes::new(Cow::Borrowed(&b"RIFF"[..]));
    assert_eq!(borrowed.as_ref(), b"RIFF");
    let owned = AudioBytes::new(Cow::Owned(vec![1, 2, 3, 255]));
    assert_eq!(owned.as_ref(), &[1, 2, 3, 255]);
    let empty = AudioBytes::new(Cow::Owned(Vec::new()));
    assert_eq!(empty.as_ref(), b"");
}

#[test]
fn audio_bytes_clone_shares_the_buffer() {
    let first = AudioBytes::new(Cow::Owned(vec![9, 8, 7]));
    let copy = first.clone();
    assert_eq!(copy, first);
    assert_eq!(copy.as_ref(), &[9, 8, 7]);
    assert_eq!(copy.as_ref().as_ptr(), first.as_ref().as_ptr());
    assert_ne!(copy, AudioBytes::new(Cow::Owned(vec![9, 8])));
}

#[test]
fn unity_is_one() {
    assert_eq!(UNITY_BITS, 1.0f32.to_bits());
    assert_eq!(Level::unity().to_bits(), 1.0f32.to_bits());
    assert_eq!(f32::from_bits(Level::unity().to_bits()), 1.0);
}

#[test]
fn level_round_trips_its_bits() {
    for x in [0.0f32, -0.0, 0.5, 1.0, -3.25, 1.0e-30, f32::MAX, f32::INFINITY] {
        assert_eq!(Level::from_bits(x.to_bits()).to_bits(), x.to_bits());
        assert_eq!(Level::from_bits(x.to_bits()).bits, x.to_bits());
    }
    let nan = f32::NAN.to_bits();
    assert_eq!(Level::from_bits(nan).to_bits(), nan);
    assert_ne!(of(0.0), of(-0.0));
}

#[test]
fn resolved_volume_is_the_product_of_table_category_and_instance() {
    let mut table: AudioVolumes = HashMap::new();
    table.insert(1, of(2.0));
    table.insert(2, of(0.0));
    table.insert(3, of(-0.5));
    let categories = [0.0f32, 0.25, 1.0, 3.0, -1.0];
    let instances = [0.0f32, 0.5, 1.0, 8.0, -2.0];
    for (key, asset) in [(1u64, 2.0f32), (2, 0.0), (3, -0.5)] {
        for c in categories {
            for i in instances {
                let gain = resolve_volume(&table, key, of(c), of(i));
                assert_eq!(gain, Gain { asset: of(asset), category: of(c), instance: of(i) });
                assert_eq!(product(gain), asset * c * i);
            }
        }
    }
}

#[test]
fn resolved_volume_defaults_to_unity_for_an_absent_key() {
    let mut table: AudioVolumes = HashMap::new();
    table.insert(1, of(2.0));
    for c in [0.25f32, 1.0, 3.0] {
        for i in [0.5f32, 1.0, 8.0] {
            let gain = resolve_volume(&table, 99, of(c), of(i));
            assert_eq!(gain.asset, Level::unity());
            assert_eq!(product(gain), 1.0 * c * i);
        }
    }
    let empty: AudioVolumes = HashMap::new();
    assert_eq!(product(resolve_volume(&empty, 1, of(1.0), of(0.5))), 0.5);
}

#[test]
fn audio_bytes_can_be_read_through_a_cursor() {
    let bytes = AudioBytes::new(Cow::Borrowed(&b"OggS-data"[..]));
    let mut cursor = Cursor::new(bytes.clone());
    let mut head = [0u8; 4];
    cursor.read_exact(&mut head).unwrap();
    assert_eq!(&head, b"OggS");
    cursor.seek(SeekFrom::Start(5)).unwrap();
    let mut rest = Vec::new();
    cursor.read_to_end(&mut rest).unwrap();
    assert_eq!(rest, b"data".to_vec());
    assert_eq!(bytes.as_ref(), b"OggS-data");
}
