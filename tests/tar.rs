use gu_envman::tar::{announced_size, header_block, trailer_block, TarUnwrapper, TarWrapper};

fn octal_field(b: &[u8]) -> u64 {
    let mut v = 0u64;
    for &c in b {
        if c == 0 || c == b' ' {
            break;
        }
        v = v * 8 + (c - b'0') as u64;
    }
    v
}

#[test]
fn header_has_the_ustar_layout() {
    let h = header_block(b"a.txt", 5).ok().unwrap();
    assert_eq!(h.len(), 512);
    assert_eq!(&h[0..5], b"a.txt");
    assert!(h[5..100].iter().all(|&b| b == 0));
    assert_eq!(&h[100..108], b"0000644\0");
    assert_eq!(&h[124..136], b"00000000005\0");
    assert_eq!(h[156], b'0');
    assert_eq!(&h[257..263], b"ustar\0");
    assert_eq!(&h[263..265], b"00");
    // the checksum is the sum of the bytes with its own field as spaces
    let mut sum: u64 = 0;
    for (i, &b) in h.iter().enumerate() {
        sum += if (148..156).contains(&i) { b' ' as u64 } else { b as u64 };
    }
    assert_eq!(octal_field(&h[148..156]), sum);
    assert_eq!(h[154], 0);
    assert_eq!(h[155], b' ');
}

#[test]
fn header_refuses_long_names_and_huge_sizes() {
    let long = vec![b'n'; 101];
    assert!(header_block(&long, 1).is_err());
    assert!(header_block(&vec![b'n'; 100], 1).is_ok());
    assert!(header_block(b"f", 0x2_0000_0000).is_err());
    assert!(header_block(b"f", 0x1_ffff_ffff).is_ok());
}

#[test]
fn trailer_pads_to_blocks() {
    assert_eq!(trailer_block(0).len(), 1024);
    assert_eq!(trailer_block(5).len(), 507 + 1024);
    assert_eq!(trailer_block(512).len(), 1024);
    assert!(trailer_block(700).iter().all(|&b| b == 0));
}

fn wrap_all(name: &str, content: &[u8], chunk: usize) -> Vec<u8> {
    let (mut w, header) = TarWrapper::new(&name.to_string(), content.len() as u64).ok().unwrap();
    let mut archive = header;
    for c in content.chunks(chunk) {
        archive.extend(w.wrap(c.to_vec()).ok().unwrap());
    }
    archive.extend(w.finish().ok().unwrap());
    archive
}

#[test]
fn wrapped_file_unwraps_to_itself() {
    let content: Vec<u8> = (0..3000u32).map(|i| (i * 7 % 256) as u8).collect();
    let archive = wrap_all("data.bin", &content, 100);
    assert_eq!(archive.len() % 512, 0);
    for feed in [1usize, 7, 511, 512, 513, 4096] {
        let mut u = TarUnwrapper::new();
        let mut out = Vec::new();
        for c in archive.chunks(feed) {
            out.extend(u.feed(&c.to_vec()).ok().unwrap());
        }
        assert!(u.finish().is_ok());
        assert_eq!(out, content);
    }
}

#[test]
fn empty_file_round_trip() {
    let archive = wrap_all("empty", b"", 10);
    assert_eq!(archive.len(), 512 + 1024);
    let mut u = TarUnwrapper::new();
    let out = u.feed(&archive).ok().unwrap();
    assert!(out.is_empty());
    assert!(u.finish().is_ok());
}

#[test]
fn wrapper_holds_to_the_announced_size() {
    let (mut w, _) = TarWrapper::new(&"f".to_string(), 4).ok().unwrap();
    assert!(w.wrap(vec![1, 2, 3]).is_ok());
    assert!(w.finish().is_err());
    assert!(w.wrap(vec![4, 5]).is_err());
    assert_eq!(w.wrap(vec![4]).ok().unwrap(), vec![4]);
    assert_eq!(w.finish().ok().unwrap().len(), 508 + 1024);
}

#[test]
fn unwrapper_refuses_a_directory_entry() {
    let mut h = header_block(b"dir", 0).ok().unwrap();
    h[156] = b'5';
    let mut u = TarUnwrapper::new();
    assert!(u.feed(&h[..100].to_vec()).is_ok());
    assert!(u.feed(&h[100..].to_vec()).is_err());
    assert!(u.finish().is_err());
}

#[test]
fn unwrapper_needs_the_whole_file() {
    let archive = wrap_all("f", b"abcdef", 2);
    let mut u = TarUnwrapper::new();
    let out = u.feed(&archive[..515].to_vec()).ok().unwrap();
    assert_eq!(out, b"abc".to_vec());
    assert!(u.finish().is_err());
}

#[test]
fn raw_download_needs_its_length() {
    assert_eq!(announced_size(Some(12)).ok().unwrap(), 12);
    assert_eq!(announced_size(None).err().unwrap(), "the download has no length");
}
