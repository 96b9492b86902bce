//! How many of the measured multiplications are run in which way.
use vstd::prelude::*;

use crate::backends::common::gpu_types::gemm::GemmBPrologueKind;
use crate::backends::common::matmul::routing::MatmulShape;
use crate::backends::metal::device_profile::DeviceProfile;
use crate::backends::metal::matmul::qmv::routes;
use crate::backends::metal::matmul::qmv::table::{self, QmvFormat, QmvRoute, QmvShape};

verus! {

/// How many routes there are of each kind.
pub ghost struct RouteCounts {
    pub tuned: int,
    pub main_gemv: int,
    pub main_gemm: int,
}

impl RouteCounts {
    /// The counts of both.
    pub open spec fn and(self, other: RouteCounts) -> RouteCounts {
        RouteCounts {
            tuned: self.tuned + other.tuned,
            main_gemv: self.main_gemv + other.main_gemv,
            main_gemm: self.main_gemm + other.main_gemm,
        }
    }
}

/// The kind of one route; a multiplication without a route counts nowhere.
pub open spec fn kind_of(route: Option<QmvRoute>) -> RouteCounts {
    match route {
        Some(QmvRoute::Tuned(_)) => RouteCounts { tuned: 1, main_gemv: 0, main_gemm: 0 },
        Some(QmvRoute::MainGemv(_)) => RouteCounts { tuned: 0, main_gemv: 1, main_gemm: 0 },
        Some(QmvRoute::MainGemm(_)) => RouteCounts { tuned: 0, main_gemv: 0, main_gemm: 1 },
        None => RouteCounts { tuned: 0, main_gemv: 0, main_gemm: 0 },
    }
}

/// The kinds of the routes of all projections.
pub open spec fn over_projections(
    route: spec_fn(QmvFormat, u32, QmvShape) -> Option<QmvRoute>,
    format: QmvFormat,
    m: u32,
) -> RouteCounts {
    kind_of(route(format, m, QmvShape::Down)).and(kind_of(route(format, m, QmvShape::Gate))).and(
        kind_of(route(format, m, QmvShape::GateUp)),
    ).and(kind_of(route(format, m, QmvShape::ProjectionIn))).and(
        kind_of(route(format, m, QmvShape::ProjectionOut)),
    ).and(kind_of(route(format, m, QmvShape::Qkv))).and(
        kind_of(route(format, m, QmvShape::Readout)),
    )
}

/// The kinds of the routes of all projections with two to seven rows.
pub open spec fn over_rows(
    route: spec_fn(QmvFormat, u32, QmvShape) -> Option<QmvRoute>,
    format: QmvFormat,
) -> RouteCounts {
    over_projections(route, format, 2).and(over_projections(route, format, 3)).and(
        over_projections(route, format, 4),
    ).and(over_projections(route, format, 5)).and(over_projections(route, format, 6)).and(
        over_projections(route, format, 7),
    )
}

/// The kinds of the routes of all formats, row counts and projections.
pub open spec fn over_formats(
    route: spec_fn(QmvFormat, u32, QmvShape) -> Option<QmvRoute>,
) -> RouteCounts {
    over_rows(route, QmvFormat::W4ZeroPointG32).and(
        over_rows(route, QmvFormat::W4ZeroPointG64),
    ).and(over_rows(route, QmvFormat::W8SymmetricG32)).and(
        over_rows(route, QmvFormat::W8SymmetricG64),
    )
}

/// A multiplication by a projection with packed weights; `base` gives what no route depends on.
pub open spec fn measured_problem(
    base: MatmulShape,
    format: QmvFormat,
    m: u32,
    shape: QmvShape,
) -> MatmulShape {
    MatmulShape {
        m,
        n: routes::columns(shape),
        k: routes::depth(shape),
        b_prologue: match format {
            QmvFormat::W4ZeroPointG32 | QmvFormat::W4ZeroPointG64 => {
                GemmBPrologueKind::ScaleZeroPointDequant
            },
            QmvFormat::W8SymmetricG32 | QmvFormat::W8SymmetricG64 => {
                GemmBPrologueKind::ScaleSymmetricDequant
            },
        },
        b_bits: match format {
            QmvFormat::W4ZeroPointG32 | QmvFormat::W4ZeroPointG64 => Some(4),
            QmvFormat::W8SymmetricG32 | QmvFormat::W8SymmetricG64 => Some(8),
        },
        b_group_size: match format {
            QmvFormat::W4ZeroPointG32 | QmvFormat::W8SymmetricG32 => Some(32),
            QmvFormat::W4ZeroPointG64 | QmvFormat::W8SymmetricG64 => Some(64),
        },
        ..base
    }
}

/// The routes that a device takes.
pub open spec fn routes_of(device: DeviceProfile, base: MatmulShape) -> spec_fn(
    QmvFormat,
    u32,
    QmvShape,
) -> Option<QmvRoute> {
    |format: QmvFormat, m: u32, shape: QmvShape|
        routes::spec_route(device, measured_problem(base, format, m, shape), true)
}

proof fn lemma_routes_are_looked_up(device: DeviceProfile, base: MatmulShape)
    requires
        routes::is_measured_kind(MatmulShape { m: 2, ..base }, true),
    ensures
        forall|format: QmvFormat, m: u32, shape: QmvShape|
            2 <= m <= 7 ==> #[trigger] routes_of(device, base)(format, m, shape) == routes::lookup(
                device,
                format,
                m,
                shape,
            ),
{
    assert forall|format: QmvFormat, m: u32, shape: QmvShape| 2 <= m <= 7 implies #[trigger] routes_of(
        device,
        base,
    )(format, m, shape) == routes::lookup(device, format, m, shape) by {
        let problem = measured_problem(base, format, m, shape);
        assert(routes::is_measured_kind(problem, true));
        routes::law_extents_name_one_projection(shape, problem.n, problem.k);
    }
}

#[verifier::rlimit(60)]
proof fn lemma_m1_counts(device: DeviceProfile, base: MatmulShape)
    requires
        routes::is_measured_kind(MatmulShape { m: 2, ..base }, true),
        device.identity is M1,
    ensures
        over_formats(routes_of(device, base)) == (RouteCounts {
            tuned: 139,
            main_gemv: 29,
            main_gemm: 0,
        }),
{
    let route = routes_of(device, base);
    lemma_routes_are_looked_up(device, base);
    assert(over_rows(route, QmvFormat::W4ZeroPointG32) == (RouteCounts {
        tuned: 40,
        main_gemv: 2,
        main_gemm: 0,
    }));
    assert(over_rows(route, QmvFormat::W4ZeroPointG64) == (RouteCounts {
        tuned: 42,
        main_gemv: 0,
        main_gemm: 0,
    }));
    assert(over_rows(route, QmvFormat::W8SymmetricG32) == (RouteCounts {
        tuned: 29,
        main_gemv: 13,
        main_gemm: 0,
    }));
    assert(over_rows(route, QmvFormat::W8SymmetricG64) == (RouteCounts {
        tuned: 28,
        main_gemv: 14,
        main_gemm: 0,
    }));
}

#[verifier::rlimit(60)]
proof fn lemma_m2_counts(device: DeviceProfile, base: MatmulShape)
    requires
        routes::is_measured_kind(MatmulShape { m: 2, ..base }, true),
        device.identity is M2,
    ensures
        over_formats(routes_of(device, base)) == (RouteCounts {
            tuned: 142,
            main_gemv: 26,
            main_gemm: 0,
        }),
{
    let route = routes_of(device, base);
    lemma_routes_are_looked_up(device, base);
    assert(over_rows(route, QmvFormat::W4ZeroPointG32) == (RouteCounts {
        tuned: 41,
        main_gemv: 1,
        main_gemm: 0,
    }));
    assert(over_rows(route, QmvFormat::W4ZeroPointG64) == (RouteCounts {
        tuned: 42,
        main_gemv: 0,
        main_gemm: 0,
    }));
    assert(over_rows(route, QmvFormat::W8SymmetricG32) == (RouteCounts {
        tuned: 29,
        main_gemv: 13,
        main_gemm: 0,
    }));
    assert(over_rows(route, QmvFormat::W8SymmetricG64) == (RouteCounts {
        tuned: 30,
        main_gemv: 12,
        main_gemm: 0,
    }));
}

#[verifier::rlimit(60)]
proof fn lemma_m2_pro_counts(device: DeviceProfile, base: MatmulShape)
    requires
        routes::is_measured_kind(MatmulShape { m: 2, ..base }, true),
        device.identity is M2Pro,
    ensures
        over_formats(routes_of(device, base)) == (RouteCounts {
            tuned: 92,
            main_gemv: 38,
            main_gemm: 38,
        }),
{
    let route = routes_of(device, base);
    lemma_routes_are_looked_up(device, base);
    assert(over_rows(route, QmvFormat::W4ZeroPointG32) == (RouteCounts {
        tuned: 15,
        main_gemv: 9,
        main_gemm: 18,
    }));
    assert(over_rows(route, QmvFormat::W4ZeroPointG64) == (RouteCounts {
        tuned: 42,
        main_gemv: 0,
        main_gemm: 0,
    }));
    assert(over_rows(route, QmvFormat::W8SymmetricG32) == (RouteCounts {
        tuned: 6,
        main_gemv: 16,
        main_gemm: 20,
    }));
    assert(over_rows(route, QmvFormat::W8SymmetricG64) == (RouteCounts {
        tuned: 29,
        main_gemv: 13,
        main_gemm: 0,
    }));
}

#[verifier::rlimit(60)]
proof fn lemma_m3_max_counts(device: DeviceProfile, base: MatmulShape)
    requires
        routes::is_measured_kind(MatmulShape { m: 2, ..base }, true),
        device.identity is M3Max,
    ensures
        over_formats(routes_of(device, base)) == (RouteCounts {
            tuned: 127,
            main_gemv: 37,
            main_gemm: 4,
        }),
{
    let route = routes_of(device, base);
    lemma_routes_are_looked_up(device, base);
    assert(over_rows(route, QmvFormat::W4ZeroPointG32) == (RouteCounts {
        tuned: 34,
        main_gemv: 8,
        main_gemm: 0,
    }));
    assert(over_rows(route, QmvFormat::W4ZeroPointG64) == (RouteCounts {
        tuned: 38,
        main_gemv: 4,
        main_gemm: 0,
    }));
    assert(over_rows(route, QmvFormat::W8SymmetricG32) == (RouteCounts {
        tuned: 27,
        main_gemv: 11,
        main_gemm: 4,
    }));
    assert(over_rows(route, QmvFormat::W8SymmetricG64) == (RouteCounts {
        tuned: 28,
        main_gemv: 14,
        main_gemm: 0,
    }));
}

#[verifier::rlimit(60)]
proof fn lemma_m4_counts(device: DeviceProfile, base: MatmulShape)
    requires
        routes::is_measured_kind(MatmulShape { m: 2, ..base }, true),
        device.identity is M4,
    ensures
        over_formats(routes_of(device, base)) == (RouteCounts {
            tuned: 117,
            main_gemv: 47,
            main_gemm: 4,
        }),
{
    let route = routes_of(device, base);
    lemma_routes_are_looked_up(device, base);
    assert(over_rows(route, QmvFormat::W4ZeroPointG32) == (RouteCounts {
        tuned: 34,
        main_gemv: 8,
        main_gemm: 0,
    }));
    assert(over_rows(route, QmvFormat::W4ZeroPointG64) == (RouteCounts {
        tuned: 35,
        main_gemv: 7,
        main_gemm: 0,
    }));
    assert(over_rows(route, QmvFormat::W8SymmetricG32) == (RouteCounts {
        tuned: 27,
        main_gemv: 11,
        main_gemm: 4,
    }));
    assert(over_rows(route, QmvFormat::W8SymmetricG64) == (RouteCounts {
        tuned: 21,
        main_gemv: 21,
        main_gemm: 0,
    }));
}

#[verifier::rlimit(60)]
proof fn lemma_m4_pro_counts(device: DeviceProfile, base: MatmulShape)
    requires
        routes::is_measured_kind(MatmulShape { m: 2, ..base }, true),
        device.identity is M4Pro,
    ensures
        over_formats(routes_of(device, base)) == (RouteCounts {
            tuned: 125,
            main_gemv: 39,
            main_gemm: 4,
        }),
{
    let route = routes_of(device, base);
    lemma_routes_are_looked_up(device, base);
    assert(over_rows(route, QmvFormat::W4ZeroPointG32) == (RouteCounts {
        tuned: 34,
        main_gemv: 8,
        main_gemm: 0,
    }));
    assert(over_rows(route, QmvFormat::W4ZeroPointG64) == (RouteCounts {
        tuned: 35,
        main_gemv: 7,
        main_gemm: 0,
    }));
    assert(over_rows(route, QmvFormat::W8SymmetricG32) == (RouteCounts {
        tuned: 27,
        main_gemv: 11,
        main_gemm: 4,
    }));
    assert(over_rows(route, QmvFormat::W8SymmetricG64) == (RouteCounts {
        tuned: 29,
        main_gemv: 13,
        main_gemm: 0,
    }));
}

#[verifier::rlimit(60)]
proof fn lemma_m5_max_counts(device: DeviceProfile, base: MatmulShape)
    requires
        routes::is_measured_kind(MatmulShape { m: 2, ..base }, true),
        device.identity is M5Max,
        device.supports_mxu,
    ensures
        over_formats(routes_of(device, base)) == (RouteCounts {
            tuned: 122,
            main_gemv: 5,
            main_gemm: 41,
        }),
{
    let route = routes_of(device, base);
    lemma_routes_are_looked_up(device, base);
    assert(over_rows(route, QmvFormat::W4ZeroPointG32) == (RouteCounts {
        tuned: 33,
        main_gemv: 0,
        main_gemm: 9,
    }));
    assert(over_rows(route, QmvFormat::W4ZeroPointG64) == (RouteCounts {
        tuned: 28,
        main_gemv: 0,
        main_gemm: 14,
    }));
    assert(over_rows(route, QmvFormat::W8SymmetricG32) == (RouteCounts {
        tuned: 33,
        main_gemv: 2,
        main_gemm: 7,
    }));
    assert(over_rows(route, QmvFormat::W8SymmetricG64) == (RouteCounts {
        tuned: 28,
        main_gemv: 3,
        main_gemm: 11,
    }));
}

/// Of the measured multiplications on the measured devices, 864 are run by a tile that was
/// tuned, 221 by the general GEMV and 91 by the general GEMM. Together that is all of them.
pub proof fn law_route_counts(
    base: MatmulShape,
    m1: DeviceProfile,
    m2: DeviceProfile,
    m2_pro: DeviceProfile,
    m3_max: DeviceProfile,
    m4: DeviceProfile,
    m4_pro: DeviceProfile,
    m5_max: DeviceProfile,
)
    requires
        routes::is_measured_kind(MatmulShape { m: 2, ..base }, true),
        m1.identity is M1,
        m2.identity is M2,
        m2_pro.identity is M2Pro,
        m3_max.identity is M3Max,
        m4.identity is M4,
        m4_pro.identity is M4Pro,
        m5_max.identity is M5Max,
        m5_max.supports_mxu,
    ensures
        over_formats(routes_of(m1, base)).and(over_formats(routes_of(m2, base))).and(over_formats(routes_of(m2_pro, base))).and(over_formats(routes_of(m3_max, base))).and(over_formats(routes_of(m4, base))).and(over_formats(routes_of(m4_pro, base))).and(over_formats(routes_of(m5_max, base))) == (RouteCounts {
            tuned: 864,
            main_gemv: 221,
            main_gemm: 91,
        }),
{
    lemma_m1_counts(m1, base);
    lemma_m2_counts(m2, base);
    lemma_m2_pro_counts(m2_pro, base);
    lemma_m3_max_counts(m3_max, base);
    lemma_m4_counts(m4, base);
    lemma_m4_pro_counts(m4_pro, base);
    lemma_m5_max_counts(m5_max, base);
}

} // verus!
