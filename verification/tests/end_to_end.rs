use microbench::time::Nanoseconds;
use microbench::{measure, Options, Routine};

/// Spins until `nanos` nanoseconds have passed.
fn busy_wait(nanos: u64) {
    let started = std::time::Instant::now();
    while (started.elapsed().as_nanos() as u64) < nanos {}
}

struct BusyRoutine {
    cost_nanos: u64,
}

impl Routine<()> for BusyRoutine {
    fn run(&mut self) {
        busy_wait(self.cost_nanos);
    }
}

/// A reference ordinary-least-squares fit over the samples, kept simple on
/// purpose: it only judges the collected data, nothing more.
fn fit(samples: &[(f64, f64)]) -> (f64, f64) {
    let n = samples.len() as f64;
    let xmean = samples.iter().map(|s| s.0).sum::<f64>() / n;
    let ymean = samples.iter().map(|s| s.1).sum::<f64>() / n;
    let slope = samples.iter().map(|s| (s.0 - xmean) * (s.1 - ymean)).sum::<f64>()
        / samples.iter().map(|s| (s.0 - xmean) * (s.0 - xmean)).sum::<f64>();
    let intercept = ymean - slope * xmean;
    let explained = samples
        .iter()
        .map(|s| (slope * s.0 + intercept - ymean) * (slope * s.0 + intercept - ymean))
        .sum::<f64>();
    let total = samples.iter().map(|s| (s.1 - ymean) * (s.1 - ymean)).sum::<f64>();
    (slope, explained / total)
}

#[test]
fn estimated_slope_matches_a_known_cost() {
    let cost_nanos: u64 = 10_000;
    let options = Options::default().time(Nanoseconds(2_000_000_000));
    let samples = measure(&options, BusyRoutine { cost_nanos });
    assert!(samples.len() >= 10);

    let points: Vec<(f64, f64)> = samples
        .iter()
        .map(|s| (s.iterations as f64, s.elapsed.0 as f64))
        .collect();
    let (slope, r2) = fit(&points);
    let cost = cost_nanos as f64;
    assert!(slope > cost * 0.9 && slope < cost * 1.1, "slope {} off {}", slope, cost);
    assert!(r2 > 0.9, "r2 {}", r2);
}
