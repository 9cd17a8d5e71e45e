use sabiptrace::accum::{Accumulator, Pixel};
use sabiptrace::image::Film;

#[test]
fn merge_adds_channel_totals() {
    let mut a: Vec<u64> = vec![1, 2, 3];
    let b: Vec<u64> = vec![10, 20, 30];
    a.merge(&b);
    assert_eq!(a, vec![11, 22, 33]);
}

#[test]
fn merge_is_commutative() {
    let a: Vec<u64> = vec![5, 0, 7, 100];
    let b: Vec<u64> = vec![1, 9, 2, 50];
    let mut ab = a.duplicate();
    ab.merge(&b);
    let mut ba = b.duplicate();
    ba.merge(&a);
    assert_eq!(ab, ba);
}

#[test]
fn merge_is_associative() {
    let a: Vec<u64> = vec![1, 2];
    let b: Vec<u64> = vec![30, 40];
    let c: Vec<u64> = vec![500, 600];
    let mut ab_c = a.duplicate();
    ab_c.merge(&b);
    ab_c.merge(&c);
    let mut bc = b.duplicate();
    bc.merge(&c);
    let mut a_bc = a.duplicate();
    a_bc.merge(&bc);
    assert_eq!(ab_c, a_bc);
}

#[test]
fn merge_keeps_own_shape() {
    // A shorter partner only contributes to the overlapping channels; a
    // longer partner's extra channels are dropped.
    let mut a: Vec<u64> = vec![1, 1, 1];
    let b: Vec<u64> = vec![5];
    a.merge(&b);
    assert_eq!(a, vec![6, 1, 1]);
    let mut c: Vec<u64> = vec![2];
    let d: Vec<u64> = vec![3, 9];
    c.merge(&d);
    assert_eq!(c, vec![5]);
}

#[test]
fn reset_clears_totals() {
    let mut a: Vec<u64> = vec![4, 5, 6];
    a.reset();
    assert_eq!(a, vec![0, 0, 0]);
}

#[test]
fn pixel_records_samples() {
    let mut p: Pixel<Vec<u64>> = Pixel::new(&vec![0u64, 0, 0]);
    assert_eq!(p.samples, 0);
    p.record(&vec![1, 2, 3]);
    p.record(&vec![1, 0, 1]);
    assert_eq!(p.accum, vec![2, 2, 4]);
    assert_eq!(p.samples, 2);
}

#[test]
fn pixel_merge_is_commutative() {
    let mut a: Pixel<Vec<u64>> = Pixel::new(&vec![0u64, 0]);
    a.record(&vec![1, 2]);
    let mut b: Pixel<Vec<u64>> = Pixel::new(&vec![0u64, 0]);
    b.record(&vec![10, 20]);
    b.record(&vec![1, 1]);

    let mut ab = Pixel { accum: a.accum.duplicate(), samples: a.samples };
    ab.merge(&b);
    let mut ba = Pixel { accum: b.accum.duplicate(), samples: b.samples };
    ba.merge(&a);
    assert_eq!(ab.accum, ba.accum);
    assert_eq!(ab.samples, ba.samples);
    assert_eq!(ab.accum, vec![12, 23]);
    assert_eq!(ab.samples, 3);
}

#[test]
fn paired_accumulators_merge_together() {
    // Per-depth totals next to a grand total, as a film pixel keeps them.
    let mut a: (Vec<u64>, Vec<u64>) = (vec![1, 2], vec![3]);
    let b: (Vec<u64>, Vec<u64>) = (vec![10, 20], vec![30]);
    a.merge(&b);
    assert_eq!(a.0, vec![11, 22]);
    assert_eq!(a.1, vec![33]);
    a.reset();
    assert_eq!(a.0, vec![0, 0]);
    assert_eq!(a.1, vec![0]);
}

#[test]
fn film_record_touches_one_pixel() {
    let mut film: Film<Vec<u64>> = Film::new(2, 2, &vec![0u64, 0]);
    assert_eq!(film.w(), 2);
    assert_eq!(film.h(), 2);
    film.record(1, 0, &vec![3, 4]);
    assert_eq!(film.at(1, 0).accum, vec![3, 4]);
    assert_eq!(film.at(1, 0).samples, 1);
    assert_eq!(film.at(0, 0).samples, 0);
    assert_eq!(film.at(0, 1).samples, 0);
    assert_eq!(film.at(1, 1).samples, 0);
}

#[test]
fn film_merge_is_pixelwise() {
    // A thread-local film merged into the shared one, as the light tracer
    // does at the end of a thread's run.
    let mut shared: Film<Vec<u64>> = Film::new(2, 1, &vec![0u64]);
    shared.record(0, 0, &vec![1]);
    let mut local: Film<Vec<u64>> = Film::new(2, 1, &vec![0u64]);
    local.record(0, 0, &vec![10]);
    local.record(1, 0, &vec![20]);
    shared.merge(&local);
    assert_eq!(shared.at(0, 0).accum, vec![11]);
    assert_eq!(shared.at(0, 0).samples, 2);
    assert_eq!(shared.at(1, 0).accum, vec![20]);
    assert_eq!(shared.at(1, 0).samples, 1);
}

#[test]
fn film_merge_is_commutative() {
    let mut a: Film<Vec<u64>> = Film::new(2, 1, &vec![0u64]);
    a.record(0, 0, &vec![7]);
    let mut b: Film<Vec<u64>> = Film::new(2, 1, &vec![0u64]);
    b.record(1, 0, &vec![9]);
    b.record(0, 0, &vec![2]);

    let mut ab: Film<Vec<u64>> = Film::new(2, 1, &vec![0u64]);
    ab.merge(&a);
    ab.merge(&b);
    let mut ba: Film<Vec<u64>> = Film::new(2, 1, &vec![0u64]);
    ba.merge(&b);
    ba.merge(&a);
    for x in 0..2 {
        assert_eq!(ab.at(x, 0).accum, ba.at(x, 0).accum);
        assert_eq!(ab.at(x, 0).samples, ba.at(x, 0).samples);
    }
}

#[test]
fn film_reset_clears_every_pixel() {
    let mut film: Film<Vec<u64>> = Film::new(3, 2, &vec![0u64, 0]);
    film.record(2, 1, &vec![5, 6]);
    film.reset();
    for x in 0..3 {
        for y in 0..2 {
            assert_eq!(film.at(x, y).accum, vec![0, 0]);
            assert_eq!(film.at(x, y).samples, 0);
        }
    }
}
