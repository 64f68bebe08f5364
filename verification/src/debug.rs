use vstd::prelude::*;

verus! {

/// Unpacks the three 10-bit coordinates stored in the low 30 bits of a
/// `r32ui` texel holding a `rgb10_a2ui` position: `(x, y, z)`.
pub open spec fn spec_r32ui_to_rgb10_a2ui(from: u32) -> (u32, u32, u32) {
    (
        (from % 1024) as u32,
        ((from / 1024) % 1024) as u32,
        ((from / 1048576) % 1024) as u32,
    )
}

/// The `rgb10_a2ui` texel whose coordinates are `x`, `y`, `z` and whose
/// alpha is `a`, read as a `u32`.
pub open spec fn rgb10_a2ui_texel(x: nat, y: nat, z: nat, a: nat) -> nat {
    x + 1024 * y + 1048576 * z + 1073741824 * a
}

/// Reads the `(x, y, z)` coordinates out of a packed `rgb10_a2ui` value.
pub fn r32ui_to_rgb10_a2ui(from: u32) -> (coordinates: (u32, u32, u32))
    ensures
        coordinates == spec_r32ui_to_rgb10_a2ui(from),
        coordinates.0 < 1024,
        coordinates.1 < 1024,
        coordinates.2 < 1024,
{
    let mask: u32 = 0b00000000000000000000001111111111;
    let x = from & mask;
    let y = (from >> 10) & mask;
    let z = (from >> 20) & mask;
    assert(x == from % 1024) by (bit_vector)
        requires
            x == from & 0b1111111111u32,
    ;
    assert(y == (from / 1024) % 1024) by (bit_vector)
        requires
            y == (from >> 10) & 0b1111111111u32,
    ;
    assert(z == (from / 1048576) % 1024) by (bit_vector)
        requires
            z == (from >> 20) & 0b1111111111u32,
    ;
    (x, y, z)
}

/// Unpacking a texel gives back the coordinates it was packed from,
/// whatever its alpha.
pub proof fn lemma_unpack_packed_texel(x: u32, y: u32, z: u32, a: u32)
    requires
        x < 1024,
        y < 1024,
        z < 1024,
        a < 4,
    ensures
        rgb10_a2ui_texel(x as nat, y as nat, z as nat, a as nat) <= u32::MAX,
        spec_r32ui_to_rgb10_a2ui(rgb10_a2ui_texel(x as nat, y as nat, z as nat, a as nat) as u32)
            == (x, y, z),
{
    let t = x + 1024 * y + 1048576 * z + 1073741824 * a;
    assert(t <= u32::MAX) by (nonlinear_arith)
        requires
            x < 1024,
            y < 1024,
            z < 1024,
            a < 4,
            t == x + 1024 * y + 1048576 * z + 1073741824 * a,
    ;
    assert(t % 1024 == x) by (nonlinear_arith)
        requires
            x < 1024,
            y < 1024,
            z < 1024,
            a < 4,
            t == x + 1024 * y + 1048576 * z + 1073741824 * a,
    ;
    assert((t / 1024) % 1024 == y) by (nonlinear_arith)
        requires
            x < 1024,
            y < 1024,
            z < 1024,
            a < 4,
            t == x + 1024 * y + 1048576 * z + 1073741824 * a,
    ;
    assert((t / 1048576) % 1024 == z) by (nonlinear_arith)
        requires
            x < 1024,
            y < 1024,
            z < 1024,
            a < 4,
            t == x + 1024 * y + 1048576 * z + 1073741824 * a,
    ;
}

/// Voxel coordinates of the first voxel of the brick of node `node_id` in a
/// brick pool whose side is `brick_pool_resolution` voxels (bricks are
/// `3 x 3 x 3` voxels, laid out x first, then y, then z).
pub open spec fn spec_brick_coordinates(node_id: u32, brick_pool_resolution: u32) -> (int, int, int) {
    let bricks = (brick_pool_resolution / 3) as int;
    let n = node_id as int;
    (3 * (n % bricks), 3 * ((n / bricks) % bricks), 3 * (n / (bricks * bricks)))
}

/// Where the brick of node `node_id` starts in the brick pool.
pub fn get_brick_coordinates(node_id: u32, brick_pool_resolution: u32) -> (coordinates: (
    u32,
    u32,
    u32,
))
    requires
        brick_pool_resolution >= 3,
        (brick_pool_resolution / 3) * (brick_pool_resolution / 3) <= u32::MAX,
        3 * (node_id as int / ((brick_pool_resolution / 3) as int * (brick_pool_resolution
            / 3) as int)) <= u32::MAX,
    ensures
        (coordinates.0 as int, coordinates.1 as int, coordinates.2 as int)
            == spec_brick_coordinates(node_id, brick_pool_resolution),
{
    let brick_pool_resolution_bricks = brick_pool_resolution / 3;
    let bricks_per_layer = brick_pool_resolution_bricks * brick_pool_resolution_bricks;
    assert(bricks_per_layer > 0) by (nonlinear_arith)
        requires
            brick_pool_resolution_bricks > 0,
            bricks_per_layer == brick_pool_resolution_bricks * brick_pool_resolution_bricks,
    ;
    let x = node_id % brick_pool_resolution_bricks;
    let y = (node_id / brick_pool_resolution_bricks) % brick_pool_resolution_bricks;
    let z = node_id / bricks_per_layer;
    assert(3 * x <= u32::MAX && 3 * y <= u32::MAX) by {
        assert(x < brick_pool_resolution_bricks);
        assert(y < brick_pool_resolution_bricks);
    }
    (x * 3, y * 3, z * 3)
}

/// The brick of a node starts on a multiple of three on every axis, inside
/// the pool's square layer, and its position gives the node back:
/// `node_id == x/3 + (y/3) * bricks + (z/3) * bricks * bricks`.
pub proof fn lemma_brick_coordinates_decompose(node_id: u32, brick_pool_resolution: u32)
    requires
        brick_pool_resolution >= 3,
    ensures
        ({
            let c = spec_brick_coordinates(node_id, brick_pool_resolution);
            let bricks = (brick_pool_resolution / 3) as int;
            &&& c.0 % 3 == 0
            &&& c.1 % 3 == 0
            &&& c.2 % 3 == 0
            &&& 0 <= c.0 < 3 * bricks
            &&& 0 <= c.1 < 3 * bricks
            &&& node_id == c.0 / 3 + (c.1 / 3) * bricks + (c.2 / 3) * (bricks * bricks)
        }),
{
    let b = (brick_pool_resolution / 3) as int;
    let n = node_id as int;
    let q = n / b;
    assert(n == n % b + b * q) by (nonlinear_arith)
        requires
            b > 0,
            q == n / b,
    ;
    assert(q == q % b + b * (q / b)) by (nonlinear_arith)
        requires
            b > 0,
    ;
    assert(q / b == n / (b * b)) by (nonlinear_arith)
        requires
            b > 0,
            n >= 0,
            q == n / b,
    {
        vstd::arithmetic::div_mod::lemma_div_denominator(n, b, b);
    }
    assert(n == n % b + (q % b) * b + (n / (b * b)) * (b * b)) by (nonlinear_arith)
        requires
            n == n % b + b * q,
            q == q % b + b * (q / b),
            q / b == n / (b * b),
    ;
    assert(0 <= n % b < b);
    assert(0 <= q % b < b);
}

/// Coordinates, inside a `3 x 3 x 3` brick, of its voxel number `index`.
pub open spec fn spec_brick_voxel_coordinates(index: nat) -> (nat, nat, nat) {
    (index % 3, (index / 3) % 3, index / 9)
}

/// Coordinates, inside a brick, of its voxel number `index`; used to label
/// the photon counts of a brick.
pub fn brick_voxel_coordinates(index: usize) -> (coordinates: (usize, usize, usize))
    ensures
        (coordinates.0 as nat, coordinates.1 as nat, coordinates.2 as nat)
            == spec_brick_voxel_coordinates(index as nat),
        index < 27 ==> coordinates.2 < 3 && index == coordinates.0 + 3 * coordinates.1 + 9
            * coordinates.2,
{
    let x = index % 3;
    let y = (index / 3) % 3;
    let z = index / (3 * 3);
    assert(index == x + 3 * y + 9 * z) by (nonlinear_arith)
        requires
            x == index % 3,
            y == (index / 3) % 3,
            z == index / 9,
    ;
    (x, y, z)
}

/// OpenGL's `DEBUG_TYPE_PERFORMANCE`.
pub const DEBUG_TYPE_PERFORMANCE: u32 = 0x8250;

/// Identifiers of driver messages that carry no information worth showing.
pub open spec fn is_insignificant_message_id(id: u32) -> bool {
    id == 131169 || id == 131185 || id == 131218 || id == 131204
}

/// Whether the debug output callback reports a message: performance
/// messages and a few insignificant identifiers are ignored.
pub fn debug_message_is_reported(message_type: u32, id: u32) -> (reported: bool)
    ensures
        reported == (message_type != DEBUG_TYPE_PERFORMANCE && !is_insignificant_message_id(id)),
{
    if message_type == DEBUG_TYPE_PERFORMANCE {
        return false;
    }
    if id == 131_169 || id == 131_185 || id == 131_218 || id == 131_204 {
        return false;
    }
    true
}

/// The line that names the source of a debug message.
pub fn debug_source_label(source: u32) -> (label: &'static str)
    ensures
        label@ == if source == 0x8246 {
            "Source: API"@
        } else if source == 0x8247 {
            "Source: Window System"@
        } else if source == 0x8248 {
            "Source: Shader Compiler"@
        } else if source == 0x8249 {
            "Source: Third Party"@
        } else if source == 0x824A {
            "Source: Application"@
        } else if source == 0x824B {
            "Source: Other"@
        } else {
            "Source: Unknown enum value"@
        },
{
    if source == 0x8246 {
        "Source: API"
    } else if source == 0x8247 {
        "Source: Window System"
    } else if source == 0x8248 {
        "Source: Shader Compiler"
    } else if source == 0x8249 {
        "Source: Third Party"
    } else if source == 0x824A {
        "Source: Application"
    } else if source == 0x824B {
        "Source: Other"
    } else {
        "Source: Unknown enum value"
    }
}

/// The line that names the type of a debug message.
pub fn debug_type_label(message_type: u32) -> (label: &'static str)
    ensures
        label@ == if message_type == 0x824C {
            "Type: Error"@
        } else if message_type == 0x824D {
            "Type: Deprecated Behaviour"@
        } else if message_type == 0x824E {
            "Type: Undefined Behaviour"@
        } else if message_type == 0x824F {
            "Type: Portability"@
        } else if message_type == 0x8250 {
            "Type: Performance"@
        } else if message_type == 0x8268 {
            "Type: Marker"@
        } else if message_type == 0x8269 {
            "Type: Push Group"@
        } else if message_type == 0x826A {
            "Type: Pop Group"@
        } else if message_type == 0x8251 {
            "Type: Other"@
        } else {
            "Type: Unknown enum value"@
        },
{
    if message_type == 0x824C {
        "Type: Error"
    } else if message_type == 0x824D {
        "Type: Deprecated Behaviour"
    } else if message_type == 0x824E {
        "Type: Undefined Behaviour"
    } else if message_type == 0x824F {
        "Type: Portability"
    } else if message_type == 0x8250 {
        "Type: Performance"
    } else if message_type == 0x8268 {
        "Type: Marker"
    } else if message_type == 0x8269 {
        "Type: Push Group"
    } else if message_type == 0x826A {
        "Type: Pop Group"
    } else if message_type == 0x8251 {
        "Type: Other"
    } else {
        "Type: Unknown enum value"
    }
}

/// The line that names the severity of a debug message.
pub fn debug_severity_label(severity: u32) -> (label: &'static str)
    ensures
        label@ == if severity == 0x9146 {
            "Severity: high"@
        } else if severity == 0x9147 {
            "Severity: medium"@
        } else if severity == 0x9148 {
            "Severity: low"@
        } else if severity == 0x826B {
            "Severity: notification"@
        } else {
            "Severity: Unknown enum value"@
        },
{
    if severity == 0x9146 {
        "Severity: high"
    } else if severity == 0x9147 {
        "Severity: medium"
    } else if severity == 0x9148 {
        "Severity: low"
    } else if severity == 0x826B {
        "Severity: notification"
    } else {
        "Severity: Unknown enum value"
    }
}

} // verus!
