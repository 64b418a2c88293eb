use pathtracer::denoise::same_surface;
use pathtracer::denoise::GBInfo;
use pathtracer::shading::choose_glass_scatter;
use pathtracer::shading::exclude_lights_on_bounce;
use pathtracer::shading::GlassScatter;
use pathtracer::shading::shade_gate;
use pathtracer::shading::HitClass;
use pathtracer::shading::ShadeControl;

const BLACK: [i64; 3] = [0, 0, 0];

fn is_radiance(r: &ShadeControl<[i64; 3]>, expected: [i64; 3]) -> bool {
    matches!(r, ShadeControl::Radiance(c) if *c == expected)
}

#[test]
fn negative_depth_is_black_for_any_ray() {
    let emission = [9, 9, 9];
    assert!(is_radiance(&shade_gate(BLACK, -1, &HitClass::Miss), BLACK));
    assert!(is_radiance(&shade_gate(BLACK, -1, &HitClass::Emissive(emission)), BLACK));
    assert!(is_radiance(&shade_gate(BLACK, -1, &HitClass::Scattering), BLACK));
    assert!(is_radiance(&shade_gate(BLACK, -5, &HitClass::Scattering), BLACK));
}

#[test]
fn a_miss_shades_black() {
    assert!(is_radiance(&shade_gate(BLACK, 0, &HitClass::<[i64; 3]>::Miss), BLACK));
    assert!(is_radiance(&shade_gate(BLACK, 20, &HitClass::<[i64; 3]>::Miss), BLACK));
}

#[test]
fn an_emissive_hit_returns_its_emission_unchanged() {
    let emission = [7, 7, 7];
    assert!(is_radiance(&shade_gate(BLACK, 0, &HitClass::Emissive(emission)), emission));
    assert!(is_radiance(&shade_gate(BLACK, 20, &HitClass::Emissive(emission)), emission));
}

#[test]
fn a_scattering_hit_keeps_gathering() {
    assert!(matches!(
        shade_gate(BLACK, 0, &HitClass::<[i64; 3]>::Scattering),
        ShadeControl::Gather
    ));
}

#[test]
fn lights_visible_on_the_first_bounce_only() {
    let top = 20;
    assert!(!exclude_lights_on_bounce(true, top, top));
    assert!(exclude_lights_on_bounce(true, top - 1, top));
    assert!(!exclude_lights_on_bounce(false, top - 1, top));
    assert!(!exclude_lights_on_bounce(false, top, top));
}

#[test]
fn total_internal_reflection_never_refracts() {
    assert!(matches!(choose_glass_scatter(false, true), GlassScatter::Reflect));
    assert!(matches!(choose_glass_scatter(true, true), GlassScatter::Reflect));
    assert!(matches!(choose_glass_scatter(true, false), GlassScatter::Reflect));
    assert!(matches!(choose_glass_scatter(false, false), GlassScatter::Refract));
}

#[test]
fn different_surfaces_never_blend() {
    let a = GBInfo { hit_obj_id: 1, payload: (1.0f64, 2.0f64) };
    let b = GBInfo { hit_obj_id: 2, payload: (1.0f64, 2.0f64) };
    let c = GBInfo { hit_obj_id: 1, payload: (9.0f64, -3.5f64) };
    assert!(!same_surface(&a, &b));
    assert!(same_surface(&a, &c));
    assert!(same_surface(&a, &a));
}
