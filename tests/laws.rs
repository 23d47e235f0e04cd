use binder::{BinderRef, OwnedParcel, Parcel, StatusCode};

#[test]
fn scalars_round_trip_at_their_position() {
    let mut parcel = Parcel::new();
    parcel.write(&7i32).unwrap();
    let p = parcel.get_data_position();
    parcel.write(&-5i32).unwrap();
    parcel.write(&0xdead_beefu32).unwrap();
    parcel.write(&-9_000_000_000i64).unwrap();
    parcel.write(&u64::MAX).unwrap();
    parcel.write(&true).unwrap();
    parcel.write(&false).unwrap();
    parcel.write(&-3i8).unwrap();
    parcel.write(&200u8).unwrap();
    parcel.write(&65535u16).unwrap();
    assert_eq!(parcel.get_data_position(), 4 + 4 + 4 + 8 + 8 + 4 * 5);
    parcel.set_data_position(p).unwrap();
    assert_eq!(parcel.read::<i32>(), Ok(-5));
    assert_eq!(parcel.read::<u32>(), Ok(0xdead_beef));
    assert_eq!(parcel.read::<i64>(), Ok(-9_000_000_000));
    assert_eq!(parcel.read::<u64>(), Ok(u64::MAX));
    assert_eq!(parcel.read::<bool>(), Ok(true));
    assert_eq!(parcel.read::<bool>(), Ok(false));
    assert_eq!(parcel.read::<i8>(), Ok(-3));
    assert_eq!(parcel.read::<u8>(), Ok(200));
    assert_eq!(parcel.read::<u16>(), Ok(65535));
    assert_eq!(parcel.read::<i32>(), Err(StatusCode::NOT_ENOUGH_DATA));
}

#[test]
fn negative_i8_is_sign_extended_on_the_wire() {
    let mut parcel = Parcel::new();
    parcel.write(&-1i8).unwrap();
    parcel.set_data_position(0).unwrap();
    assert_eq!(parcel.read::<i32>(), Ok(-1));
}

#[test]
fn composite_values_round_trip() {
    let mut parcel = Parcel::new();
    parcel.write(&String::from("héllo")).unwrap();
    parcel.write(&Some(String::from("x"))).unwrap();
    parcel.write(&None::<String>).unwrap();
    parcel.write(&vec![1u8, 2, 3, 4, 5]).unwrap();
    parcel.write(&vec![10i64, -20]).unwrap();
    parcel.write(&Some(vec![true, false])).unwrap();
    parcel.set_data_position(0).unwrap();
    assert_eq!(parcel.read::<String>(), Ok(String::from("héllo")));
    assert_eq!(parcel.read::<Option<String>>(), Ok(Some(String::from("x"))));
    assert_eq!(parcel.read::<Option<String>>(), Ok(None));
    assert_eq!(parcel.read::<Vec<u8>>(), Ok(vec![1u8, 2, 3, 4, 5]));
    assert_eq!(parcel.read::<Vec<i64>>(), Ok(vec![10i64, -20]));
    assert_eq!(parcel.read::<Option<Vec<bool>>>(), Ok(Some(vec![true, false])));
    assert_eq!(parcel.get_data_position(), parcel.get_data_size());
}

#[test]
fn byte_runs_are_padded_to_four() {
    let mut parcel = Parcel::new();
    parcel.write(&vec![9u8, 8, 7, 6, 5]).unwrap();
    assert_eq!(parcel.get_data_size(), 4 + 8);
    parcel.write(&vec![0u8; 0]).unwrap();
    assert_eq!(parcel.get_data_size(), 4 + 8 + 4);
}

#[test]
fn string_is_its_utf8_bytes_with_length() {
    let mut parcel = Parcel::new();
    parcel.write("ab").unwrap();
    parcel.set_data_position(0).unwrap();
    assert_eq!(parcel.read::<i32>(), Ok(2));
    assert_eq!(parcel.get_data_size(), 8);
}

#[test]
fn invalid_utf8_reads_as_bad_value() {
    let mut parcel = Parcel::new();
    parcel.write(&vec![0xffu8, 0xfe]).unwrap();
    parcel.set_data_position(0).unwrap();
    assert_eq!(parcel.read::<String>(), Err(StatusCode::BAD_VALUE));
}

#[test]
fn sized_write_frames_n_words() {
    for n in 0..5usize {
        let mut parcel = Parcel::new();
        parcel.write(&77i32).unwrap();
        let start = parcel.get_data_position();
        let v: Vec<i32> = (0..n as i32).collect();
        parcel.sized_write(|sub| sub.write(&v)).unwrap();
        let len = 4 + 4 + 4 * n as i32;
        assert_eq!(parcel.get_data_position(), start + len);
        parcel.set_data_position(start).unwrap();
        assert_eq!(parcel.read::<i32>(), Ok(len));
        assert_eq!(parcel.read::<Vec<i32>>(), Ok(v));
    }
}

#[test]
fn sized_write_callback_error_is_returned() {
    let mut parcel = Parcel::new();
    let r = parcel.sized_write(|_sub| Err(StatusCode::BAD_TYPE));
    assert_eq!(r, Err(StatusCode::BAD_TYPE));
    parcel.set_data_position(0).unwrap();
    assert_eq!(parcel.read::<i32>(), Ok(0));
}

#[test]
fn sized_read_skips_unread_fields() {
    let mut parcel = Parcel::new();
    parcel
        .sized_write(|sub| {
            sub.write(&1i32)?;
            sub.write(&2i32)?;
            sub.write(&3i32)
        })
        .unwrap();
    parcel.write(&99i32).unwrap();
    parcel.set_data_position(0).unwrap();
    let first = parcel
        .sized_read(|sub| if sub.has_more_data() { sub.read::<i32>() } else { Ok(0) })
        .unwrap();
    assert_eq!(first, 1);
    assert_eq!(parcel.get_data_position(), 16);
    assert_eq!(parcel.read::<i32>(), Ok(99));
}

#[test]
fn sized_read_of_older_block_stops_at_its_end() {
    let mut parcel = Parcel::new();
    parcel.sized_write(|sub| sub.write(&5i32)).unwrap();
    parcel.write(&6i32).unwrap();
    parcel.set_data_position(0).unwrap();
    let got = parcel
        .sized_read(|sub| {
            let a = if sub.has_more_data() { sub.read::<i32>()? } else { -1 };
            let b = if sub.has_more_data() { sub.read::<i32>()? } else { -1 };
            Ok((a, b))
        })
        .unwrap();
    assert_eq!(got, (5, -1));
    assert_eq!(parcel.get_data_position(), 8);
}

#[test]
fn sized_read_rejects_bad_lengths() {
    let mut parcel = Parcel::new();
    parcel.write(&-4i32).unwrap();
    parcel.set_data_position(0).unwrap();
    assert_eq!(parcel.sized_read(|_sub| Ok(())), Err(StatusCode::BAD_VALUE));

    let mut parcel = Parcel::new();
    parcel.write(&0i32).unwrap();
    parcel.write(&i32::MAX).unwrap();
    parcel.set_data_position(4).unwrap();
    assert_eq!(parcel.sized_read(|_sub| Ok(())), Err(StatusCode::BAD_VALUE));

    let mut parcel = Parcel::new();
    parcel.write(&12i32).unwrap();
    parcel.set_data_position(0).unwrap();
    assert_eq!(parcel.sized_read(|_sub| Ok(())), Err(StatusCode::NOT_ENOUGH_DATA));

    let mut parcel = Parcel::new();
    assert_eq!(parcel.sized_read(|_sub| Ok(())), Err(StatusCode::NOT_ENOUGH_DATA));
}

#[test]
fn append_copies_exactly_the_range() {
    let mut src = Parcel::new();
    src.write(&0x0403_0201i32).unwrap();
    src.write(&0x0807_0605i32).unwrap();
    let mut dst = Parcel::new();
    dst.write(&-1i32).unwrap();
    assert_eq!(dst.append_from(&src, 2, 4), Ok(()));
    assert_eq!(dst.get_data_size(), 8);
    assert_eq!(dst.get_data_position(), 8);
    dst.set_data_position(4).unwrap();
    assert_eq!(dst.read::<i32>(), Ok(0x0605_0403));
    assert_eq!(dst.append_from(&src, 0, 9), Err(StatusCode::BAD_VALUE));
    assert_eq!(dst.append_from(&src, 8, 0), Ok(()));
    assert_eq!(dst.get_data_size(), 8);
}

#[test]
fn clone_reads_the_same_values() {
    let mut parcel = Parcel::new();
    parcel.write(&3i32).unwrap();
    parcel.write("three").unwrap();
    parcel.write(&vec![3u64]).unwrap();
    let mut copy = parcel.clone();
    assert_eq!(copy.get_data_size(), parcel.get_data_size());
    parcel.set_data_position(0).unwrap();
    copy.set_data_position(0).unwrap();
    assert_eq!(copy.read::<i32>(), parcel.read::<i32>());
    assert_eq!(copy.read::<String>(), parcel.read::<String>());
    assert_eq!(copy.read::<Vec<u64>>(), parcel.read::<Vec<u64>>());
    assert_eq!(copy.read::<i32>(), Err(StatusCode::NOT_ENOUGH_DATA));
}

#[test]
fn no_sequence_differs_from_empty_sequence() {
    let mut parcel = Parcel::new();
    parcel.write(&None::<Vec<i32>>).unwrap();
    parcel.write(&Vec::<i32>::new()).unwrap();
    parcel.write(&None::<Vec<u8>>).unwrap();
    parcel.write(&Vec::<u8>::new()).unwrap();
    parcel.set_data_position(0).unwrap();
    assert_eq!(parcel.read::<Option<Vec<i32>>>(), Ok(None));
    assert_eq!(parcel.read::<Option<Vec<i32>>>(), Ok(Some(vec![])));
    assert_eq!(parcel.read::<Option<Vec<u8>>>(), Ok(None));
    assert_eq!(parcel.read::<Option<Vec<u8>>>(), Ok(Some(vec![])));
    parcel.set_data_position(0).unwrap();
    assert_eq!(parcel.read::<Vec<i32>>(), Err(StatusCode::UNEXPECTED_NULL));
}

#[test]
fn sequence_count_past_the_data_is_rejected() {
    let mut parcel = Parcel::new();
    parcel.write(&3i32).unwrap();
    parcel.write(&1i32).unwrap();
    parcel.set_data_position(0).unwrap();
    assert_eq!(parcel.read::<Vec<i32>>(), Err(StatusCode::NOT_ENOUGH_DATA));
}

#[test]
fn set_data_position_checks_bounds() {
    let mut parcel = Parcel::new();
    parcel.write(&1i32).unwrap();
    assert_eq!(parcel.set_data_position(-1), Err(StatusCode::BAD_VALUE));
    assert_eq!(parcel.set_data_position(5), Err(StatusCode::BAD_VALUE));
    assert_eq!(parcel.get_data_position(), 4);
    assert_eq!(parcel.set_data_position(4), Ok(()));
}

#[test]
fn slice_sizes_and_out_vectors() {
    let mut parcel = Parcel::new();
    parcel.write_slice_size(Some(&[1u8, 2, 3][..])).unwrap();
    parcel.write_slice_size::<u8>(None).unwrap();
    parcel.write(&0i32).unwrap();
    parcel.set_data_position(0).unwrap();
    let mut v: Vec<i32> = vec![9];
    assert_eq!(parcel.resize_out_vec(&mut v), Ok(()));
    assert_eq!(v, vec![9, 0, 0]);
    assert_eq!(parcel.resize_out_vec(&mut v), Err(StatusCode::UNEXPECTED_NULL));
    assert_eq!(v, vec![9, 0, 0]);
    assert_eq!(parcel.resize_out_vec(&mut v), Ok(()));
    assert_eq!(v, Vec::<i32>::new());

    parcel.set_data_position(0).unwrap();
    let mut o: Option<Vec<u16>> = None;
    assert_eq!(parcel.resize_nullable_out_vec(&mut o), Ok(()));
    assert_eq!(o, Some(vec![0u16, 0, 0]));
    assert_eq!(parcel.resize_nullable_out_vec(&mut o), Ok(()));
    assert_eq!(o, None);
    assert_eq!(parcel.resize_nullable_out_vec(&mut o), Ok(()));
    assert_eq!(o, Some(vec![]));
    assert_eq!(parcel.resize_nullable_out_vec(&mut o), Err(StatusCode::NOT_ENOUGH_DATA));
}

#[test]
fn binder_references_round_trip() {
    let mut parcel = Parcel::new();
    parcel.write_binder(Some(&BinderRef { handle: 17 })).unwrap();
    parcel.write_binder(None).unwrap();
    parcel.write(&5i32).unwrap();
    assert_eq!(parcel.get_data_size(), 36);
    parcel.set_data_position(0).unwrap();
    assert_eq!(parcel.read_binder(), Ok(Some(BinderRef { handle: 17 })));
    assert_eq!(parcel.read_binder(), Ok(None));
    assert_eq!(parcel.read_binder(), Err(StatusCode::BAD_TYPE));
    assert_eq!(parcel.get_data_position(), 32);
}

#[test]
fn owned_parcel_views_and_conversions() {
    let mut owned = OwnedParcel::new();
    {
        let mut view = owned.borrowed();
        view.write(&11i32).unwrap();
        view.mark_sensitive();
    }
    let copy = owned.clone();
    let mut parcel = owned.into_parcel();
    assert_eq!(parcel.get_data_size(), 4);
    parcel.set_data_position(0).unwrap();
    assert_eq!(parcel.read::<i32>(), Ok(11));
    let mut other = copy.into_parcel();
    other.set_data_position(0).unwrap();
    assert_eq!(other.read::<i32>(), Ok(11));
    assert!(OwnedParcel::from_raw(None).is_none());
}

#[test]
fn references_through_write_and_read() {
    let mut parcel = Parcel::new();
    parcel.write(&BinderRef { handle: 3 }).unwrap();
    parcel.write(&None::<BinderRef>).unwrap();
    parcel.write(&Some(BinderRef { handle: 4 })).unwrap();
    parcel.set_data_position(0).unwrap();
    assert_eq!(parcel.read::<BinderRef>(), Ok(BinderRef { handle: 3 }));
    assert_eq!(parcel.read::<BinderRef>(), Err(StatusCode::UNEXPECTED_NULL));
    assert_eq!(parcel.read::<Option<BinderRef>>(), Ok(Some(BinderRef { handle: 4 })));
    assert_eq!(parcel.read::<Option<BinderRef>>(), Err(StatusCode::BAD_TYPE));
}

#[test]
fn mark_sensitive_keeps_contents() {
    let mut parcel = Parcel::new();
    parcel.write(&8i32).unwrap();
    parcel.mark_sensitive();
    parcel.mark_sensitive();
    assert_eq!(parcel.get_data_position(), 4);
    parcel.set_data_position(0).unwrap();
    assert_eq!(parcel.read::<i32>(), Ok(8));
}
