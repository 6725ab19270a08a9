use c_frontend::util::{
    optional_non_empty_vec_to_vec, vec_to_optional_non_empty_vec, Either, EitherOrBoth,
    NonEmptyVec,
};

#[test]
fn new_holds_one_element() {
    let vec = NonEmptyVec::new(7);
    assert_eq!(vec.len(), 1);
    assert_eq!(*vec.get(0), 7);
    assert_eq!(vec.unwrap(), vec![7]);
}

#[test]
fn an_empty_vector_has_no_non_empty_form() {
    assert_eq!(vec_to_optional_non_empty_vec(Vec::<i32>::new()), None);
}

#[test]
fn a_vector_keeps_its_elements_and_their_order() {
    let vec = vec_to_optional_non_empty_vec(vec![1, 2, 3]).unwrap();
    assert_eq!(vec.len(), 3);
    assert_eq!(*vec.get(0), 1);
    assert_eq!(*vec.get(1), 2);
    assert_eq!(*vec.get(2), 3);
    assert_eq!(vec.first, 1);
    assert_eq!(vec.rest, vec![2, 3]);
    assert_eq!(vec.unwrap(), vec![1, 2, 3]);
}

#[test]
fn conversions_are_inverse_to_each_other() {
    assert_eq!(optional_non_empty_vec_to_vec(None::<NonEmptyVec<u8>>), Vec::<u8>::new());
    assert_eq!(
        optional_non_empty_vec_to_vec(vec_to_optional_non_empty_vec(vec![4, 5])),
        vec![4, 5]
    );
    assert_eq!(
        optional_non_empty_vec_to_vec(vec_to_optional_non_empty_vec(Vec::<u8>::new())),
        Vec::<u8>::new()
    );
}

#[test]
fn either_holds_one_of_two() {
    let left: Either<i32, &str> = Either::Left(1);
    let right: Either<i32, &str> = Either::Right("r");
    assert_ne!(left, right);
    assert_eq!(left, Either::Left(1));
    let both: EitherOrBoth<i32, &str> = EitherOrBoth::Both(1, "r");
    assert_ne!(both, EitherOrBoth::Left(1));
    assert_ne!(both, EitherOrBoth::Right("r"));
}
