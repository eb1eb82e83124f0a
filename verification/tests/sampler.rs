use rust_raytracer::sampler::{SampleCursor, SamplerMethod};

#[test]
fn sampler_method_from_str_names() {
    assert_eq!(SamplerMethod::from_str("random"), Some(SamplerMethod::Random));
    assert_eq!(SamplerMethod::from_str("sobol"), Some(SamplerMethod::Sobol));
    assert_eq!(SamplerMethod::from_str("halton"), Some(SamplerMethod::Random));
}

#[test]
fn cursor_hands_out_consecutive_dimensions() {
    let mut c: SampleCursor<f64> = SampleCursor::new();
    assert_eq!(c.remaining(), 0);
    c.start_sample(vec![0.1, 0.2, 0.3, 0.4, 0.5, 0.6]);
    assert_eq!(c.remaining(), 6);
    assert_eq!(c.get_1d(), 0.1);
    assert_eq!(c.get_2d(), vec![0.2, 0.3]);
    assert_eq!(c.get_3d(), vec![0.4, 0.5, 0.6]);
    assert_eq!(c.remaining(), 0);
    c.start_sample(vec![0.9, 0.8]);
    assert_eq!(c.next_dim(), 0.9);
    assert_eq!(c.remaining(), 1);
    c.reset();
    assert_eq!(c.remaining(), 0);
}
