use std::borrow::Cow;

use ferrum::Content;

#[test]
fn test_deref_content() {
    let content = Content(vec![1, 2]);

    assert_eq!(vec![1, 2], *content);
    assert_eq!(vec![1, 2].len(), content.len());
}

#[test]
fn content_test_deref_content() {
    let content = Content(vec![1, 2]);

    assert_eq!(vec![1, 2], *content);
    assert_eq!(vec![1, 2].len(), content.len());
}

#[test]
fn content_is_made_of_bytes_and_of_text() {
    assert_eq!(Content::from(vec![1u8, 2, 3]).0, vec![1, 2, 3]);
    assert_eq!(Content::from(&[4u8, 5][..]).0, vec![4, 5]);
    assert_eq!(Content::from(Cow::Borrowed(&[6u8][..])).0, vec![6]);
    assert_eq!(Content::from(Cow::<[u8]>::Owned(vec![7u8, 8])).0, vec![7, 8]);
    assert_eq!(Content::from("h\u{e9}").0, vec![0x68, 0xC3, 0xA9]);
    assert_eq!(Content::from("hi".to_string()).0, b"hi".to_vec());
    assert_eq!(Content::from(Cow::Borrowed("a b")).0, b"a b".to_vec());
    assert_eq!(Content::from(Cow::<str>::Owned("c".to_string())).0, b"c".to_vec());
    assert_eq!(Content::from("").0, Vec::<u8>::new());
}

#[test]
fn content_turns_into_its_bytes() {
    let bytes: Vec<u8> = Content::from("body").into();

    assert_eq!(bytes, b"body".to_vec());
}
