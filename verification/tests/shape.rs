use boel::error::Error;
use boel::shape::Shape;

#[test]
fn one_dimension() {
    let s = Shape::with_1_dimension(12).unwrap();
    assert_eq!(s.ndim(), 1);
    assert_eq!(s.x(), 12);
    assert_eq!(s.y(), None);
    assert_eq!(s.size(), Some(12));
}

#[test]
fn two_dimensions() {
    let s = Shape::with_2_dimensions((3, 4)).unwrap();
    assert_eq!(s.ndim(), 2);
    assert_eq!(s.x(), 3);
    assert_eq!(s.y(), Some(4));
    assert_eq!(s.size(), Some(12));
}

#[test]
fn a_dimension_of_zero_is_refused() {
    assert_eq!(Shape::with_1_dimension(0), Err(Error::Shape));
    assert_eq!(Shape::with_2_dimensions((0, 4)), Err(Error::Shape));
    assert_eq!(Shape::with_2_dimensions((4, 0)), Err(Error::Shape));
    assert_eq!(Shape::with_2_dimensions((0, 0)), Err(Error::Shape));
    assert_eq!(Shape::new(&[0]), Err(Error::Shape));
    assert_eq!(Shape::new(&[3, 0]), Err(Error::Shape));
    assert_eq!(Shape::new(&[0, 3]), Err(Error::Shape));
}

#[test]
fn no_dimension_and_more_than_two_are_refused() {
    assert_eq!(Shape::new(&[]), Err(Error::Shape));
    assert_eq!(Shape::new(&[2, 3, 4]), Err(Error::Shape));
    assert_eq!(Shape::new(&[1, 1, 1, 1]), Err(Error::Shape));
}

#[test]
fn new_agrees_with_the_named_constructors() {
    assert_eq!(Shape::new(&[7]), Shape::with_1_dimension(7));
    assert_eq!(Shape::new(&[2, 5]), Shape::with_2_dimensions((2, 5)));
    assert_ne!(Shape::new(&[7]), Shape::new(&[7, 1]));
}

#[test]
fn a_size_that_no_usize_holds_is_none() {
    let s = Shape::with_2_dimensions((usize::MAX, 2)).unwrap();
    assert_eq!(s.size(), None);
    let s = Shape::with_2_dimensions((usize::MAX, 1)).unwrap();
    assert_eq!(s.size(), Some(usize::MAX));
    let s = Shape::with_1_dimension(usize::MAX).unwrap();
    assert_eq!(s.size(), Some(usize::MAX));
}
