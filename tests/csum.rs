use popsicle::csum::{CSumWriter, Checksum};

#[test]
fn hex_of_digest_bytes() {
    let c = Checksum::from_digest(vec![0x00, 0xff, 0x1a, 0x09]);
    assert_eq!(c.as_str(), "00ff1a09");
    assert_eq!(c.as_bytes(), &[0x00, 0xff, 0x1a, 0x09]);
    assert_eq!(Checksum::from_digest(Vec::new()).as_str(), "");
}

#[test]
fn blake2b_of_abc() {
    let mut w = CSumWriter::new(Vec::new());
    assert_eq!(w.write(b"ab"), 2);
    assert_eq!(w.write(b"c"), 1);
    let (sink, c) = w.into_inner();
    assert_eq!(sink, b"abc".to_vec());
    assert_eq!(
        c.as_str(),
        "ba80a53f981c4d0d6a2797b69f12f6e94c212f14685ac4b74b12bb6fdbffa2d1\
         7d87c5392aab792dc252d5de4533cc9518d38aa8dbf1925ab92386edd4009923"
    );
    assert_eq!(c.as_bytes().len(), 64);
}

#[test]
fn blake2b_of_nothing() {
    let w = CSumWriter::new(vec![1, 2]);
    let (sink, c) = w.into_inner();
    assert_eq!(sink, vec![1, 2]);
    assert_eq!(
        c.as_str(),
        "786a02f742015903c6c6fd852552d272912f4740e15847618a86e217f71f5419\
         d25e1031afee585313896444934eb04b903a685b1448b755d56f701afe9be2ce"
    );
}

#[test]
fn same_stream_same_checksum() {
    let run = || {
        let mut w = CSumWriter::new(Vec::new());
        w.write(b"first file");
        w.flush();
        w.write(b"second file");
        w.into_inner()
    };
    let (s1, c1) = run();
    let (s2, c2) = run();
    assert_eq!(s1, s2);
    assert!(c1 == c2);
    let mut w = CSumWriter::new(Vec::new());
    w.write(b"second file");
    w.write(b"first file");
    assert!(w.into_inner().1 != c1);
}
