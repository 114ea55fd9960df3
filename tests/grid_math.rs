use qd_strategies::problems::{DiscreteHyperparameters, Environment, Hyperparameter, Probability, SpatialMapper};
use qd_strategies::util::{integer_root, power_at_most, Coordinates};

#[test]
fn coordinates_reject_out_of_range() {
    assert!(Coordinates::new(vec![(0, 3), (3, 3)]).is_none());
    assert!(Coordinates::new(vec![(0, 0)]).is_none());
    assert!(Coordinates::new(vec![(2, 3), (0, 1)]).is_some());
    assert!(Coordinates::new(vec![]).is_some());
}

#[test]
fn coordinates_accessors() {
    let c = Coordinates::new(vec![(1, 4), (2, 5)]).unwrap();
    assert_eq!(c.get_only_coords(), vec![1, 2]);
    assert_eq!(c.get_coords_slice(), &[(1, 4), (2, 5)]);
}

#[test]
fn flatten_is_row_major() {
    assert_eq!(Coordinates::new(vec![(1, 4), (2, 5)]).unwrap().flatten_coords(), 7);
    assert_eq!(Coordinates::new(vec![(3, 4), (4, 5)]).unwrap().flatten_coords(), 19);
    assert_eq!(Coordinates::new(vec![(0, 2), (1, 3), (2, 4)]).unwrap().flatten_coords(), 6);
    assert_eq!(Coordinates::new(vec![]).unwrap().flatten_coords(), 0);
}

#[test]
fn integer_roots() {
    assert_eq!(integer_root(200, 1), 200);
    assert_eq!(integer_root(1000, 3), 10);
    assert_eq!(integer_root(999, 3), 9);
    assert_eq!(integer_root(2500, 2), 50);
    assert_eq!(integer_root(2499, 2), 49);
    assert_eq!(integer_root(1, 5), 1);
    assert_eq!(integer_root(7, 3), 1);
}

#[test]
fn power_limits() {
    assert!(power_at_most(2, 10, 1024));
    assert!(!power_at_most(2, 10, 1023));
    assert!(power_at_most(usize::MAX, 0, 1));
    assert!(!power_at_most(usize::MAX, 2, usize::MAX));
}

#[test]
fn spatial_mapper_axis_values() {
    let m = SpatialMapper { number_of_additional_dimensions: 0 };
    assert_eq!(DiscreteHyperparameters::number_of_hyperparameters(), 1);
    assert_eq!(m.number_of_hyperparameters(), 1);
    let h = m.map_hyperparameters(&vec![(0, 1)]);
    assert_eq!((h.mutation_chance.num, h.mutation_chance.den), (1, 3));
    let h = m.map_hyperparameters(&vec![(4, 5)]);
    assert_eq!((h.mutation_chance.num, h.mutation_chance.den), (5, 7));
    let p = SpatialMapper::map_axis((9, 10));
    assert_eq!((p.num, p.den), (10, 12));
}

#[test]
fn probability_extremes() {
    let never = Probability { num: 0, den: 4 };
    let always = Probability { num: 4, den: 4 };
    for _ in 0..200 {
        assert!(!never.sample());
        assert!(always.sample());
    }
}
