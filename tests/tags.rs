use serde_with::base64::{Base64, UrlSafe};
use serde_with::formats::Unpadded;
use serde_with::{DeserializeAs, SerializeAs};
use version_tag::encoding::instance_from;
use version_tag::{combine, shared, Counter, DecodeError, SharedTag, VersionTag};

fn tag_with_ordinal(n: u64) -> VersionTag {
    let mut counter = Counter::new();
    let mut t = VersionTag::new(&mut counter);
    while t.ordinal() < n {
        t = VersionTag::new(&mut counter);
    }
    t
}

fn to_text(t: &SharedTag) -> String {
    let mut buf: Vec<u8> = Vec::new();
    let mut ser = serde_json::Serializer::new(&mut buf);
    Base64::<UrlSafe, Unpadded>::serialize_as(&t.to_bytes(), &mut ser).unwrap();
    String::from_utf8(buf).unwrap()
}

fn bytes_of_text(s: &str) -> Result<Vec<u8>, serde_json::Error> {
    let mut de = serde_json::Deserializer::from_str(s);
    Base64::<UrlSafe, Unpadded>::deserialize_as(&mut de)
}

#[test]
fn shared_doesnt_overflow() {
    shared(u64::MAX, u64::MAX);
}

#[test]
fn shared_tag_deserialize() {
    let t = SharedTag::new(SharedTag::global(0), tag_with_ordinal(3));
    let s = to_text(&t);

    println!("{s}");

    let u = SharedTag::from_bytes(&bytes_of_text(&s).unwrap()).unwrap();

    assert_eq!(t, u);
}

#[test]
fn shared_bytes_are_big_endian() {
    let b = shared(0x0102030405060708, 0x1112131415161718);
    assert_eq!(
        b,
        [1, 2, 3, 4, 5, 6, 7, 8, 0x11, 0x12, 0x13, 0x14, 0x15, 0x16, 0x17, 0x18]
    );
    assert_eq!(shared(u64::MAX, u64::MAX), [0xff; 16]);
    assert_eq!(shared(0, 3), [0, 0, 0, 0, 0, 0, 0, 0, 0, 0, 0, 0, 0, 0, 0, 3]);
}

#[test]
fn counter_starts_at_one() {
    let mut counter = Counter::new();
    assert!(counter.can_issue());
    assert_eq!(counter.issue(), 1);
    assert_eq!(counter.issue(), 2);
}

#[test]
fn zero_is_below_fresh() {
    let mut counter = Counter::new();
    let z = VersionTag::zero();
    assert_eq!(z.ordinal(), 0);
    for _ in 0..10 {
        let t = VersionTag::new(&mut counter);
        assert!(z < t);
    }
}

#[test]
fn issued_ordinals_are_distinct() {
    let mut counter = Counter::new();
    let mut seen: Vec<u64> = Vec::new();
    for _ in 0..100 {
        let t = VersionTag::new(&mut counter);
        assert!(!seen.contains(&t.ordinal()));
        seen.push(t.ordinal());
    }
    for w in seen.windows(2) {
        assert!(w[0] < w[1]);
    }
}

#[test]
fn combine_of_nothing_is_zero() {
    assert_eq!(combine(&[]), VersionTag::zero());
}

#[test]
fn combine_of_one_is_that_tag() {
    let mut counter = Counter::new();
    let t = VersionTag::new(&mut counter);
    assert_eq!(combine(&[t]), t);
    assert_eq!(combine(&[VersionTag::zero()]), VersionTag::zero());
}

#[test]
fn combine_is_commutative() {
    let mut counter = Counter::new();
    let a = VersionTag::new(&mut counter);
    let b = VersionTag::new(&mut counter);
    assert_eq!(combine(&[a, b]), combine(&[b, a]));
    assert_eq!(combine(&[a, b]), b);
}

#[test]
fn combine_takes_the_largest() {
    let mut counter = Counter::new();
    let a = VersionTag::new(&mut counter);
    let b = VersionTag::new(&mut counter);
    let c = VersionTag::new(&mut counter);
    assert_eq!(combine(&[b, c, a]).ordinal(), 3);
    assert_eq!(combine(&[a, a, VersionTag::zero()]), a);
}

#[test]
fn notify_changes_the_combination() {
    let mut counter = Counter::new();
    let mut t1 = VersionTag::new(&mut counter);
    let t2 = VersionTag::new(&mut counter);
    assert_eq!(t1.ordinal(), 1);
    assert_eq!(t2.ordinal(), 2);

    let c1 = combine(&[t1, t2]);
    assert_eq!(c1.ordinal(), 2);
    assert_eq!(c1, t2);
    assert_ne!(c1, t1);

    t1.notify(&mut counter);
    assert_eq!(t1.ordinal(), 3);

    let c2 = combine(&[t1, t2]);
    assert_eq!(c2.ordinal(), 3);
    assert_eq!(c2, t1);
    assert_ne!(c2, c1);
}

#[test]
fn ordinal_converts_to_u64() {
    let t = tag_with_ordinal(5);
    assert_eq!(u64::from(t), 5);
    assert_eq!(u64::from(VersionTag::zero()), 0);
}

#[test]
fn byte_form_round_trips() {
    let t = SharedTag::new(0xdead_beef_0000_0001, tag_with_ordinal(7));
    let b = t.to_bytes();
    assert_eq!(SharedTag::from_bytes(&b), Ok(t));
    assert_eq!(t.instance(), 0xdead_beef_0000_0001);
    assert_eq!(t.ordinal(), 7);
}

#[test]
fn instances_keep_tags_apart() {
    let tag = tag_with_ordinal(4);
    let a = SharedTag::new(1, tag);
    let b = SharedTag::new(2, tag);
    assert_ne!(a, b);
    assert_ne!(a.to_bytes(), b.to_bytes());
    assert_ne!(to_text(&a), to_text(&b));
}

#[test]
fn truncated_form_is_refused() {
    let t = SharedTag::new(9, tag_with_ordinal(2));
    let b = t.to_bytes();
    assert_eq!(SharedTag::from_bytes(&b[..15]), Err(DecodeError::WrongLength(15)));
    assert_eq!(SharedTag::from_bytes(&[]), Err(DecodeError::WrongLength(0)));
    let mut long = b.to_vec();
    long.push(0);
    assert_eq!(SharedTag::from_bytes(&long), Err(DecodeError::WrongLength(17)));

    let s = to_text(&t);
    let cut = format!("{}\"", &s[..s.len() - 4]);
    let r = bytes_of_text(&cut).map(|v| SharedTag::from_bytes(&v));
    assert!(!matches!(r, Ok(Ok(_))));
    assert!(bytes_of_text("\"!!!!\"").is_err());
}

#[test]
fn comparison_with_absent_tag() {
    let t = SharedTag::new(3, tag_with_ordinal(1));
    assert!(!t.eq_option(&None));
    assert!(t.eq_option(&Some(t)));
    assert!(!t.eq_option(&Some(SharedTag::new(4, tag_with_ordinal(1)))));
}

#[test]
fn instance_is_kept_once_set() {
    assert_eq!(SharedTag::global(5), 5);
    assert_eq!(SharedTag::global(u64::MAX), u64::MAX);
}

#[test]
fn equality_with_optional_tag() {
    let t = SharedTag::new(3, tag_with_ordinal(2));
    assert!(t != None);
    assert!(t == Some(t));
    assert!(t != Some(SharedTag::new(3, tag_with_ordinal(1))));
}

#[test]
fn instance_is_settled_once() {
    assert_eq!(instance_from(5, 9), 5);
    assert_eq!(instance_from(0, 9), 9);
    assert_eq!(instance_from(0, 0), 1);
    assert_eq!(instance_from(u64::MAX, 0), u64::MAX);
    assert_ne!(SharedTag::global(0), 0);
}
