use traff_off_func::checksum::csum_replace4;

/// One's-complement sum of 16-bit words, folded.
fn ones_sum(words: &[u16]) -> u16 {
    let mut sum: u32 = 0;
    for w in words {
        sum += *w as u32;
    }
    while sum > 0xffff {
        sum = (sum & 0xffff) + (sum >> 16);
    }
    sum as u16
}

fn checksum(words: &[u16]) -> u16 {
    !ones_sum(words)
}

#[test]
fn rfc1624_example() {
    // RFC 1624, section 4: checksum 0xDD2F, a field changes from 0x5555 to 0x3285.
    assert_eq!(csum_replace4(0xDD2F, 0x5555, 0x3285), 0x0000);
}

#[test]
fn replace_same_value_keeps_checksum() {
    assert_eq!(csum_replace4(0x1234, 0xdead_beef, 0xdead_beef), 0x1234);
    assert_eq!(csum_replace4(0xb1e6, 0x0a00_0001, 0x0a00_0001), 0xb1e6);
}

#[test]
fn incremental_update_matches_recomputation() {
    // An IPv4 header whose source address 192.168.1.10 becomes 10.0.0.1.
    let mut words: Vec<u16> = vec![
        0x4500, 0x0030, 0x1c46, 0x4000, 0x4011, 0x0000, 0xc0a8, 0x010a, 0xc0a8, 0x0101,
    ];
    words[5] = checksum(&words);
    let old_check = words[5];
    let new_addr: u32 = 0x0a00_0001;
    let updated = csum_replace4(old_check as u32, 0xc0a8_010a, new_addr);
    words[6] = (new_addr >> 16) as u16;
    words[7] = (new_addr & 0xffff) as u16;
    words[5] = 0;
    let recomputed = checksum(&words);
    assert_eq!(updated, recomputed);
    words[5] = updated;
    assert_eq!(ones_sum(&words), 0xffff);
}

#[test]
fn incremental_update_of_a_port() {
    let mut words: Vec<u16> = vec![0x1389, 0x2710, 0x0010, 0x0000, 0x6869, 0x2121];
    words[3] = checksum(&words);
    let updated = csum_replace4(words[3] as u32, 0x1389, 0x2711);
    words[0] = 0x2711;
    words[3] = updated;
    assert_eq!(ones_sum(&words), 0xffff);
}

#[test]
fn replace_with_carries() {
    assert_eq!(csum_replace4(0xffff, 0xffff_ffff, 0), 0x0000);
    assert_eq!(csum_replace4(0, 0, 0xffff_ffff), 0x0000);
    assert_eq!(csum_replace4(0x0001, 0x0000_0000, 0x0000_0001), 0x0000);
}
