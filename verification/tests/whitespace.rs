use conftaal::consume::Cursor;
use conftaal::whitespace::skip_whitespace;

#[test]
fn test() {
    let mut s = Cursor::new("   \t\n\n\r\nbla\n ".as_bytes().to_vec());
    skip_whitespace(&mut s, true);
    assert_eq!(s.rest(), b"bla\n ");

    let mut s = Cursor::new("   \n  bla\n ".as_bytes().to_vec());
    skip_whitespace(&mut s, false);
    assert_eq!(s.rest(), b"\n  bla\n ");

    let mut s = Cursor::new("   #bla bla bla\n".as_bytes().to_vec());
    skip_whitespace(&mut s, false);
    assert_eq!(s.rest(), b"\n");

    let mut s = Cursor::new("#comment\n#second comment\n  #third\n\n  pizza".as_bytes().to_vec());
    skip_whitespace(&mut s, true);
    assert_eq!(s.rest(), b"pizza");

    let mut s = Cursor::new("  ".as_bytes().to_vec());
    skip_whitespace(&mut s, true);
    assert_eq!(s.rest(), b"");

    let mut s = Cursor::new("a ".as_bytes().to_vec());
    skip_whitespace(&mut s, true);
    assert_eq!(s.rest(), b"a ");

    let mut s = Cursor::new("".as_bytes().to_vec());
    skip_whitespace(&mut s, true);
    assert_eq!(s.rest(), b"");
}
