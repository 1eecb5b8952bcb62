use spectrum_table::fit::{gauss_newton, FitError, Step};
use spectrum_table::gamut::{Gamut, Illuminant};
use spectrum_table::generator::{generate_spectrum_tables, SpectrumTables};
use spectrum_table::layout::secondary_channels;
use spectrum_table::lookup::{dominant_channel, RgbToSpectrumTable};
use spectrum_table::pivot::{select_pivot, RowOrder};
use spectrum_table::quadrature::{
    curve_segment, quadrature_weight, CIE_FINE_SAMPLES, CIE_LAMBDA_MAX, CIE_LAMBDA_MIN, CIE_SAMPLES,
};
use std::cell::Cell;

const LAMBDA_MIN: f64 = CIE_LAMBDA_MIN as f64;
const LAMBDA_MAX: f64 = CIE_LAMBDA_MAX as f64;

const CIE_X: [f64; CIE_SAMPLES] = [
    0.000129900000, 0.000232100000, 0.000414900000, 0.000741600000, 0.001368000000,
    0.002236000000, 0.004243000000, 0.007650000000, 0.014310000000, 0.023190000000,
    0.043510000000, 0.077630000000, 0.134380000000, 0.214770000000, 0.283900000000,
    0.328500000000, 0.348280000000, 0.348060000000, 0.336200000000, 0.318700000000,
    0.290800000000, 0.251100000000, 0.195360000000, 0.142100000000, 0.095640000000,
    0.057950010000, 0.032010000000, 0.014700000000, 0.004900000000, 0.002400000000,
    0.009300000000, 0.029100000000, 0.063270000000, 0.109600000000, 0.165500000000,
    0.225749900000, 0.290400000000, 0.359700000000, 0.433449900000, 0.512050100000,
    0.594500000000, 0.678400000000, 0.762100000000, 0.842500000000, 0.916300000000,
    0.978600000000, 1.026300000000, 1.056700000000, 1.062200000000, 1.045600000000,
    1.002600000000, 0.938400000000, 0.854449900000, 0.751400000000, 0.642400000000,
    0.541900000000, 0.447900000000, 0.360800000000, 0.283500000000, 0.218700000000,
    0.164900000000, 0.121200000000, 0.087400000000, 0.063600000000, 0.046770000000,
    0.032900000000, 0.022700000000, 0.015840000000, 0.011359160000, 0.008110916000,
    0.005790346000, 0.004109457000, 0.002899327000, 0.002049190000, 0.001439971000,
    0.000999949300, 0.000690078600, 0.000476021300, 0.000332301100, 0.000234826100,
    0.000166150500, 0.000117413000, 0.000083075270, 0.000058706520, 0.000041509940,
    0.000029353260, 0.000020673830, 0.000014559770, 0.000010253980, 0.000007221456,
    0.000005085868, 0.000003581652, 0.000002522525, 0.000001776509, 0.000001251141,
];

const CIE_Y: [f64; CIE_SAMPLES] = [
    0.000003917000, 0.000006965000, 0.000012390000, 0.000022020000, 0.000039000000,
    0.000064000000, 0.000120000000, 0.000217000000, 0.000396000000, 0.000640000000,
    0.001210000000, 0.002180000000, 0.004000000000, 0.007300000000, 0.011600000000,
    0.016840000000, 0.023000000000, 0.029800000000, 0.038000000000, 0.048000000000,
    0.060000000000, 0.073900000000, 0.090980000000, 0.112600000000, 0.139020000000,
    0.169300000000, 0.208020000000, 0.258600000000, 0.323000000000, 0.407300000000,
    0.503000000000, 0.608200000000, 0.710000000000, 0.793200000000, 0.862000000000,
    0.914850100000, 0.954000000000, 0.980300000000, 0.994950100000, 1.000000000000,
    0.995000000000, 0.978600000000, 0.952000000000, 0.915400000000, 0.870000000000,
    0.816300000000, 0.757000000000, 0.694900000000, 0.631000000000, 0.566800000000,
    0.503000000000, 0.441200000000, 0.381000000000, 0.321000000000, 0.265000000000,
    0.217000000000, 0.175000000000, 0.138200000000, 0.107000000000, 0.081600000000,
    0.061000000000, 0.044580000000, 0.032000000000, 0.023200000000, 0.017000000000,
    0.011920000000, 0.008210000000, 0.005723000000, 0.004102000000, 0.002929000000,
    0.002091000000, 0.001484000000, 0.001047000000, 0.000740000000, 0.000520000000,
    0.000361100000, 0.000249200000, 0.000171900000, 0.000120000000, 0.000084800000,
    0.000060000000, 0.000042400000, 0.000030000000, 0.000021200000, 0.000014990000,
    0.000010600000, 0.000007465700, 0.000005257800, 0.000003702900, 0.000002607800,
    0.000001836600, 0.000001293400, 0.000000910930, 0.000000641530, 0.000000451810,
];

const CIE_Z: [f64; CIE_SAMPLES] = [
    0.000606100000, 0.001086000000, 0.001946000000, 0.003486000000, 0.006450001000,
    0.010549990000, 0.020050010000, 0.036210000000, 0.067850010000, 0.110200000000,
    0.207400000000, 0.371300000000, 0.645600000000, 1.039050100000, 1.385600000000,
    1.622960000000, 1.747060000000, 1.782600000000, 1.772110000000, 1.744100000000,
    1.669200000000, 1.528100000000, 1.287640000000, 1.041900000000, 0.812950100000,
    0.616200000000, 0.465180000000, 0.353300000000, 0.272000000000, 0.212300000000,
    0.158200000000, 0.111700000000, 0.078249990000, 0.057250010000, 0.042160000000,
    0.029840000000, 0.020300000000, 0.013400000000, 0.008749999000, 0.005749999000,
    0.003900000000, 0.002749999000, 0.002100000000, 0.001800000000, 0.001650001000,
    0.001400000000, 0.001100000000, 0.001000000000, 0.000800000000, 0.000600000000,
    0.000340000000, 0.000240000000, 0.000190000000, 0.000100000000, 0.000049999990,
    0.000030000000, 0.000020000000, 0.000010000000, 0.000000000000, 0.000000000000,
    0.000000000000, 0.000000000000, 0.000000000000, 0.000000000000, 0.000000000000,
    0.000000000000, 0.000000000000, 0.000000000000, 0.000000000000, 0.000000000000,
    0.000000000000, 0.000000000000, 0.000000000000, 0.000000000000, 0.000000000000,
    0.000000000000, 0.000000000000, 0.000000000000, 0.000000000000, 0.000000000000,
    0.000000000000, 0.000000000000, 0.000000000000, 0.000000000000, 0.000000000000,
    0.000000000000, 0.000000000000, 0.000000000000, 0.000000000000, 0.000000000000,
    0.000000000000, 0.000000000000, 0.000000000000, 0.000000000000, 0.000000000000,
];

const fn cie_d65_n(x: f64) -> f64 {
    x / 10566.864005283874576
}

const CIE_D65: [f64; CIE_SAMPLES] = [
    cie_d65_n(46.6383), cie_d65_n(49.3637), cie_d65_n(52.0891), cie_d65_n(51.0323), cie_d65_n(49.9755),
    cie_d65_n(52.3118), cie_d65_n(54.6482), cie_d65_n(68.7015), cie_d65_n(82.7549), cie_d65_n(87.1204),
    cie_d65_n(91.486) , cie_d65_n(92.4589), cie_d65_n(93.4318), cie_d65_n(90.057) , cie_d65_n(86.6823),
    cie_d65_n(95.7736), cie_d65_n(104.865), cie_d65_n(110.936), cie_d65_n(117.008), cie_d65_n(117.41) ,
    cie_d65_n(117.812), cie_d65_n(116.336), cie_d65_n(114.861), cie_d65_n(115.392), cie_d65_n(115.923),
    cie_d65_n(112.367), cie_d65_n(108.811), cie_d65_n(109.082), cie_d65_n(109.354), cie_d65_n(108.578),
    cie_d65_n(107.802), cie_d65_n(106.296), cie_d65_n(104.79) , cie_d65_n(106.239), cie_d65_n(107.689),
    cie_d65_n(106.047), cie_d65_n(104.405), cie_d65_n(104.225), cie_d65_n(104.046), cie_d65_n(102.023),
    cie_d65_n(100.0)  , cie_d65_n(98.1671), cie_d65_n(96.3342), cie_d65_n(96.0611), cie_d65_n(95.788) ,
    cie_d65_n(92.2368), cie_d65_n(88.6856), cie_d65_n(89.3459), cie_d65_n(90.0062), cie_d65_n(89.8026),
    cie_d65_n(89.5991), cie_d65_n(88.6489), cie_d65_n(87.6987), cie_d65_n(85.4936), cie_d65_n(83.2886),
    cie_d65_n(83.4939), cie_d65_n(83.6992), cie_d65_n(81.863) , cie_d65_n(80.0268), cie_d65_n(80.1207),
    cie_d65_n(80.2146), cie_d65_n(81.2462), cie_d65_n(82.2778), cie_d65_n(80.281) , cie_d65_n(78.2842),
    cie_d65_n(74.0027), cie_d65_n(69.7213), cie_d65_n(70.6652), cie_d65_n(71.6091), cie_d65_n(72.979) ,
    cie_d65_n(74.349) , cie_d65_n(67.9765), cie_d65_n(61.604) , cie_d65_n(65.7448), cie_d65_n(69.8856),
    cie_d65_n(72.4863), cie_d65_n(75.087) , cie_d65_n(69.3398), cie_d65_n(63.5927), cie_d65_n(55.0054),
    cie_d65_n(46.4182), cie_d65_n(56.6118), cie_d65_n(66.8054), cie_d65_n(65.0941), cie_d65_n(63.3828),
    cie_d65_n(63.8434), cie_d65_n(64.304) , cie_d65_n(61.8779), cie_d65_n(59.4519), cie_d65_n(55.7054),
    cie_d65_n(51.959) , cie_d65_n(54.6998), cie_d65_n(57.4406), cie_d65_n(58.8765), cie_d65_n(60.3125),
];

const XYZ_TO_SRGB: [[f64; 3]; 3] = [[ 3.240479, -1.537150, -0.498535],
                                    [-0.969256,  1.875991,  0.041556],
                                    [ 0.055648, -0.204043,  1.057311]];

const SRGB_TO_XYZ: [[f64; 3]; 3] = [[0.412453, 0.357580, 0.180423],
                                    [0.212671, 0.715160, 0.072169],
                                    [0.019334, 0.119193, 0.950227]];

struct Basis {
    lambda_tbl: [f64; CIE_FINE_SAMPLES],
    rgb_tbl: [[f64; CIE_FINE_SAMPLES]; 3],
    xyz_whitepoint: [f64; 3],
}

fn cie_interp(data: &[f64; CIE_SAMPLES], mut x: f64) -> f64 {
    x -= LAMBDA_MIN;
    x *= ((CIE_SAMPLES - 1) as f64) / (LAMBDA_MAX - LAMBDA_MIN);
    let offset = curve_segment(x < 0.0, x as usize);
    let weight = x - offset as f64;
    (1.0 - weight) * data[offset] + weight * data[offset + 1]
}

fn srgb_basis() -> Basis {
    assert_eq!(Gamut::Srgb.illuminant(), Illuminant::D65);
    let h = (LAMBDA_MAX - LAMBDA_MIN) / (CIE_FINE_SAMPLES - 1) as f64;
    let mut basis = Basis {
        lambda_tbl: [0.0; CIE_FINE_SAMPLES],
        rgb_tbl: [[0.0; CIE_FINE_SAMPLES]; 3],
        xyz_whitepoint: [0.0; 3],
    };
    for i in 0..CIE_FINE_SAMPLES {
        let lambda = LAMBDA_MIN + (i as f64) * h;
        let xyz = [cie_interp(&CIE_X, lambda), cie_interp(&CIE_Y, lambda), cie_interp(&CIE_Z, lambda)];
        let illuminant = cie_interp(&CIE_D65, lambda);
        let weight = (quadrature_weight(i) as f64 * 0.125) * h;
        basis.lambda_tbl[i] = lambda;
        for k in 0..3 {
            for j in 0..3 {
                basis.rgb_tbl[k][i] += XYZ_TO_SRGB[k][j] * xyz[j] * illuminant * weight;
            }
        }
        for j in 0..3 {
            basis.xyz_whitepoint[j] += xyz[j] * illuminant * weight;
        }
    }
    basis
}

fn sigmoid(x: f64) -> f64 {
    0.5 * x / (1.0 + x * x).sqrt() + 0.5
}

fn cie_lab(basis: &Basis, p: &mut [f64; 3]) {
    let [xw, yw, zw] = basis.xyz_whitepoint;
    let mut x = 0.0;
    let mut y = 0.0;
    let mut z = 0.0;
    for i in 0..3 {
        x += p[i] * SRGB_TO_XYZ[0][i];
        y += p[i] * SRGB_TO_XYZ[1][i];
        z += p[i] * SRGB_TO_XYZ[2][i];
    }
    let f = |t: f64| {
        let delta: f64 = 6.0 / 29.0;
        if t > delta * delta * delta {
            t.cbrt()
        } else {
            t / (delta * delta * 3.0) + 4.0 / 29.0
        }
    };
    p[0] = 116.0 * f(y / yw) - 16.0;
    p[1] = 500.0 * (f(x / xw) - f(y / yw));
    p[2] = 200.0 * (f(y / yw) - f(z / zw));
}

fn integrate(basis: &Basis, coefficients: &[f64; 3]) -> [f64; 3] {
    let mut out = [0.0; 3];
    for i in 0..CIE_FINE_SAMPLES {
        let lambda = (basis.lambda_tbl[i] - LAMBDA_MIN) / (LAMBDA_MAX - LAMBDA_MIN);
        let mut x = 0.0;
        for j in 0..3 {
            x = x * lambda + coefficients[j];
        }
        let s = sigmoid(x);
        for j in 0..3 {
            out[j] += basis.rgb_tbl[j][i] * s;
        }
    }
    out
}

fn eval_residual(basis: &Basis, coefficients: &[f64; 3], rgb: &[f64; 3]) -> [f64; 3] {
    let mut lab_out = integrate(basis, coefficients);
    cie_lab(basis, &mut lab_out);
    let mut lab_rgb = *rgb;
    cie_lab(basis, &mut lab_rgb);
    [lab_rgb[0] - lab_out[0], lab_rgb[1] - lab_out[1], lab_rgb[2] - lab_out[2]]
}

fn eval_jacobian(basis: &Basis, coefficients: &[f64; 3], rgb: &[f64; 3]) -> [[f64; 3]; 3] {
    let eps = 1.0e-4;
    let mut jacobian = [[0.0; 3]; 3];
    for i in 0..3 {
        let mut lower = *coefficients;
        lower[i] -= eps;
        let r0 = eval_residual(basis, &lower, rgb);
        let mut upper = *coefficients;
        upper[i] += eps;
        let r1 = eval_residual(basis, &upper, rgb);
        for j in 0..3 {
            jacobian[j][i] = (r1[j] - r0[j]) / (2.0 * eps);
        }
    }
    jacobian
}

fn lup_decompose(a: &mut [[f64; 3]; 3], tol: f64) -> Option<RowOrder> {
    let mut order = RowOrder::identity(3)?;
    for i in 0..3 {
        let pivot = select_pivot(i, 3, |k, kept| {
            let best = match kept {
                Some(row) => a[row][i].abs(),
                None => 0.0,
            };
            a[k][i].abs() > best
        });
        let (max_i, max_a) = match pivot {
            Some(row) => (row, a[row][i].abs()),
            None => (i, 0.0),
        };
        if max_a < tol {
            return None;
        }
        if order.pivot_on(max_i) {
            a.swap(i, max_i);
        }
        for j in (i + 1)..3 {
            a[j][i] /= a[i][i];
            for k in (i + 1)..3 {
                a[j][k] -= a[j][i] * a[i][k];
            }
        }
    }
    Some(order)
}

fn lup_solve(a: &[[f64; 3]; 3], order: &RowOrder, b: &[f64; 3]) -> [f64; 3] {
    let arranged = order.arrange(&b.to_vec());
    let mut x = [0.0; 3];
    for i in 0..3 {
        x[i] = arranged[i];
        for k in 0..i {
            x[i] -= a[i][k] * x[k];
        }
    }
    for i in (0..3).rev() {
        for k in (i + 1)..3 {
            x[i] -= a[i][k] * x[k];
        }
        x[i] /= a[i][i];
    }
    x
}

fn step(basis: &Basis, rgb: &[f64; 3], mut coefficients: [f64; 3]) -> Step<[f64; 3]> {
    let residual = eval_residual(basis, &coefficients, rgb);
    let mut jacobian = eval_jacobian(basis, &coefficients, rgb);
    let order = match lup_decompose(&mut jacobian, 1.0e-15) {
        Some(order) => order,
        None => return Step::Singular,
    };
    let x = lup_solve(&jacobian, &order, &residual);
    let mut r = 0.0;
    for j in 0..3 {
        coefficients[j] -= x[j];
        r += residual[j] * residual[j];
    }
    let max = coefficients[0].max(coefficients[1]).max(coefficients[2]);
    if max > 200.0 {
        let scale = 200.0 / max;
        for j in 0..3 {
            coefficients[j] *= scale;
        }
    }
    Step::Moved { coefficients, converged: r < 1.0e-6 }
}

fn fit(basis: &Basis, rgb: [f64; 3], start: [f64; 3]) -> Result<[f64; 3], FitError> {
    gauss_newton(start, 15, |c| step(basis, &rgb, c))
}

fn encode(coes: [f64; 3]) -> [f32; 3] {
    let c0 = 360.0;
    let c1 = 1.0 / (830.0 - 360.0);
    let (a, b, c) = (coes[0], coes[1], coes[2]);
    [
        (a * c1 * c1) as f32,
        (b * c1 - 2.0 * a * c0 * c1 * c1) as f32,
        (c - b * c0 * c1 + a * c0 * c0 * c1 * c1) as f32,
    ]
}

fn build_table(res: usize) -> RgbToSpectrumTable<f32> {
    let basis = srgb_basis();
    let scale_of = |k: usize| {
        let node = spectrum_table::scale::scale_node(res, k);
        (node.num as f64 / node.den as f64) as f32
    };
    let generated: SpectrumTables<f32> = generate_spectrum_tables(
        res,
        [0.0f64; 3],
        |l, k, j, i, guess| {
            let x = i as f64 / (res - 1) as f64;
            let y = j as f64 / (res - 1) as f64;
            let b = scale_of(k) as f64;
            let (first, second) = secondary_channels(l);
            let mut rgb = [0.0; 3];
            rgb[l] = b;
            rgb[first] = x * b;
            rgb[second] = y * b;
            fit(&basis, rgb, guess)
        },
        encode,
    )
    .ok()
    .unwrap();
    let scale: Vec<f32> =
        generated.scale.iter().map(|n| (n.num as f64 / n.den as f64) as f32).collect();
    RgbToSpectrumTable::new(res, scale, generated.table).ok().unwrap()
}

fn lerp(t: f32, a: f32, b: f32) -> f32 {
    a * (1.0 - t) + b * t
}

fn color_to_polynomial(table: &RgbToSpectrumTable<f32>, rgb: [f32; 3]) -> [f32; 3] {
    if rgb[0] == rgb[1] && rgb[1] == rgb[2] {
        return [0.0, 0.0, (rgb[0] - 0.5) / (rgb[0] * (1.0 - rgb[0])).sqrt()];
    }
    let res = table.res();
    let max_idx = dominant_channel(rgb[0] > rgb[1], rgb[0] > rgb[2], rgb[1] > rgb[2]);
    let (first, second) = secondary_channels(max_idx);
    let z = rgb[max_idx];
    let x = rgb[first] * (res as f32 - 1.0) / z;
    let y = rgb[second] * (res as f32 - 1.0) / z;
    let cell = table.locate(x as usize, y as usize, |node| node < z);
    let dx = x - cell.xi as f32;
    let dy = y - cell.yi as f32;
    let lo = table.z_node(cell.zi);
    let hi = table.z_node(cell.zi + 1);
    let dz = (z - lo) / (hi - lo);
    table.interpolate(max_idx, cell, dx, dy, dz, lerp)
}

fn get_value(c: [f32; 3], lambda: f32) -> f32 {
    let x = lambda.mul_add(lambda.mul_add(c[0], c[1]), c[2]);
    if x.is_infinite() {
        return if x.is_sign_positive() { 1.0 } else { 0.0 };
    }
    0.5 * (1.0 + x / (1.0 + x * x).sqrt())
}

#[test]
fn basis_integrates_white_to_unit_rgb() {
    let basis = srgb_basis();
    let mut total = [0.0f64; 3];
    for i in 0..CIE_FINE_SAMPLES {
        for j in 0..3 {
            total[j] += basis.rgb_tbl[j][i];
        }
    }
    for j in 0..3 {
        assert!((total[j] - 1.0).abs() < 1e-2, "channel {} integrates to {}", j, total[j]);
    }
}

#[test]
fn achromatic_polynomial_reproduces_its_gray() {
    let basis = srgb_basis();
    for n in 1..20 {
        let r = n as f32 / 20.0;
        let c0 = (r - 0.5) / (r * (1.0 - r)).sqrt();
        let rgb = integrate(&basis, &[0.0, 0.0, c0 as f64]);
        for j in 0..3 {
            assert!((rgb[j] - r as f64).abs() < 1e-2, "gray {} gives {:?}", r, rgb);
        }
    }
}

#[test]
fn fit_converges_within_the_budget() {
    let basis = srgb_basis();
    let samples: [[f64; 3]; 12] = [
        [1.0, 0.0, 0.0],
        [0.0, 1.0, 0.0],
        [0.0, 0.0, 1.0],
        [0.5, 0.5, 0.5],
        [0.8, 0.2, 0.1],
        [0.3, 0.6, 0.2],
        [0.1, 0.2, 0.7],
        [0.9, 0.9, 0.3],
        [0.25, 0.5, 0.75],
        [0.6, 0.4, 0.5],
        [0.2, 0.7, 0.65],
        [0.45, 0.15, 0.35],
    ];
    let mut converged = 0;
    for rgb in samples.iter() {
        let met = Cell::new(false);
        let r = gauss_newton([0.0f64; 3], 15, |c| {
            let s = step(&basis, rgb, c);
            if let Step::Moved { converged: true, .. } = s {
                met.set(true);
            }
            s
        });
        assert!(r.is_ok());
        if met.get() {
            converged += 1;
        }
    }
    assert!(converged * 100 >= samples.len() * 95, "{} of {} converged", converged, samples.len());
}

#[test]
fn fitted_spectrum_reproduces_its_colour() {
    let basis = srgb_basis();
    let rgb = [0.3, 0.6, 0.2];
    let c = fit(&basis, rgb, [0.0; 3]).unwrap();
    let back = integrate(&basis, &c);
    for j in 0..3 {
        assert!((back[j] - rgb[j]).abs() < 1e-3, "{:?} came back as {:?}", rgb, back);
    }
}

#[test]
fn reddish_colour_has_a_reddish_spectrum() {
    let table = build_table(8);
    let c = color_to_polynomial(&table, [0.8, 0.2, 0.1]);
    let red = get_value(c, 650.0);
    let blue = get_value(c, 450.0);
    assert!(red > blue, "value at 650 nm {} and at 450 nm {}", red, blue);
    for lambda in [360.0f32, 450.0, 550.0, 650.0, 830.0] {
        let v = get_value(c, lambda);
        assert!((0.0..=1.0).contains(&v));
    }
}

#[test]
fn lookup_at_table_nodes_returns_the_fitted_coefficients() {
    let res = 8usize;
    let table = build_table(res);
    for l in 0..3 {
        let (first, second) = secondary_channels(l);
        for k in 1..res {
            for j in 0..res - 1 {
                for i in 0..res - 1 {
                    let z = table.z_node(k);
                    let cell = table.locate(i, j, |node| node < z);
                    assert_eq!((cell.xi, cell.yi, cell.zi), (i, j, k - 1));
                    let r = table.interpolate(l, cell, 0.0, 0.0, 1.0, lerp);
                    for c in 0..3 {
                        assert_eq!(r[c], table.coefficient(l, k, j, i, c));
                    }
                    assert!(first != l && second != l);
                }
            }
        }
    }
}
