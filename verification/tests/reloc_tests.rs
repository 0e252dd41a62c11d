use graceful_dumper::reloc::relocation_offsets;

fn block(page: u32, entries: &[u16]) -> Vec<u8> {
    let size = 8 + 2 * entries.len() as u32;
    let mut b = Vec::new();
    b.extend_from_slice(&page.to_le_bytes());
    b.extend_from_slice(&size.to_le_bytes());
    for e in entries {
        b.extend_from_slice(&e.to_le_bytes());
    }
    b
}

#[test]
fn relocation_blocks_until_the_empty_one() {
    let mut table = block(0x1000, &[0xA008, 0xA010, 0x0000]);
    table.extend(block(0x2000, &[0xAFFF]));
    table.extend(block(0, &[]).iter().map(|_| 0u8));
    table.extend(vec![0xEE; 4]);
    assert_eq!(relocation_offsets(&table), Some(vec![0x1008, 0x1010, 0x2FFF]));
}

#[test]
fn relocation_table_with_only_the_end_block() {
    assert_eq!(relocation_offsets(&[0u8; 8]), Some(vec![]));
}

#[test]
fn truncated_relocation_tables() {
    assert_eq!(relocation_offsets(&[0u8; 7]), None);
    let table = block(0x1000, &[0xA008]);
    assert_eq!(relocation_offsets(&table), None);
    let mut small = Vec::new();
    small.extend_from_slice(&0x1000u32.to_le_bytes());
    small.extend_from_slice(&4u32.to_le_bytes());
    small.extend_from_slice(&[0u8; 8]);
    assert_eq!(relocation_offsets(&small), None);
}

#[test]
fn odd_block_size_ignores_the_last_byte() {
    let mut table = Vec::new();
    table.extend_from_slice(&0x3000u32.to_le_bytes());
    table.extend_from_slice(&11u32.to_le_bytes());
    table.extend_from_slice(&0xA004u16.to_le_bytes());
    table.push(0xFF);
    table.extend_from_slice(&[0u8; 8]);
    assert_eq!(relocation_offsets(&table), Some(vec![0x3004]));
}
