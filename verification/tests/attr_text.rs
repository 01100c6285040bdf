use nfs4_client::attr::{FileAttribute, FileAttributeId};
use nfs4_client::attr_text::{attr_list, file_attrs, AttrTextError};

#[test]
fn pairs_between_commas_set_attributes() {
    let attrs = file_attrs("size=100,owner=root,owner_group=wheel").unwrap();
    assert_eq!(
        attrs.values(),
        &vec![
            FileAttribute::Size(100),
            FileAttribute::Owner("root".to_string()),
            FileAttribute::OwnerGroup("wheel".to_string()),
        ]
    );
    assert_eq!(file_attrs("size=+007").unwrap().get_as::<u64>(FileAttributeId::Size), Some(&7));
    assert_eq!(
        file_attrs("size=18446744073709551615").unwrap().values(),
        &vec![FileAttribute::Size(u64::MAX)]
    );
}

#[test]
fn the_value_is_what_follows_the_first_equals_sign() {
    assert_eq!(
        attr_list("owner=a=b,owner=").unwrap(),
        vec![FileAttribute::Owner("a=b".to_string()), FileAttribute::Owner(String::new())]
    );
}

#[test]
fn of_two_pairs_for_one_attribute_the_later_one_stays() {
    assert_eq!(
        file_attrs("size=1,owner=a,size=2").unwrap().values(),
        &vec![FileAttribute::Size(2), FileAttribute::Owner("a".to_string())]
    );
}

#[test]
fn the_first_pair_that_cannot_be_read_is_reported() {
    assert_eq!(file_attrs(""), Err(AttrTextError::MissingEquals));
    assert_eq!(file_attrs("size"), Err(AttrTextError::MissingEquals));
    assert_eq!(file_attrs("size=1,"), Err(AttrTextError::MissingEquals));
    assert_eq!(file_attrs("size=1,,owner=a"), Err(AttrTextError::MissingEquals));
    assert_eq!(file_attrs("size="), Err(AttrTextError::BadSize));
    assert_eq!(file_attrs("size=1x"), Err(AttrTextError::BadSize));
    assert_eq!(file_attrs("size=-1"), Err(AttrTextError::BadSize));
    assert_eq!(file_attrs("size=18446744073709551616"), Err(AttrTextError::BadSize));
    assert_eq!(file_attrs("mode=644"), Err(AttrTextError::Unsupported("mode".to_string())));
    assert_eq!(file_attrs("=1"), Err(AttrTextError::Unsupported(String::new())));
    assert_eq!(file_attrs(" size=1"), Err(AttrTextError::Unsupported(" size".to_string())));
    assert_eq!(file_attrs("mode=1,size"), Err(AttrTextError::Unsupported("mode".to_string())));
    assert_eq!(file_attrs("size,mode=1"), Err(AttrTextError::MissingEquals));
}

#[test]
fn an_error_says_what_is_wrong() {
    assert_eq!(AttrTextError::MissingEquals.message(), "Missing `=`");
    assert_eq!(
        AttrTextError::Unsupported("mode".to_string()).message(),
        "unsupported attribute `mode`"
    );
    assert!(!AttrTextError::BadSize.message().is_empty());
}
