use vstd::prelude::*;

verus! {

/// A simulated point mass. Every scalar is the raw bit pattern of an
/// IEEE-754 double: mass (kg), density (kg/m^3), the sphere radius derived
/// from them (m), position (m), velocity (m/s) and the per-step acceleration
/// accumulator (m/s^2).
///
/// The radius is meant to satisfy `radius = cbrt(0.75 * mass / (pi *
/// density))`; the cube root is floating-point work that the embedding
/// performs, so the library carries the derived value and never recomputes
/// it.
#[derive(Clone, Copy, PartialEq, Eq, Structural, Debug)]
pub struct Body {
    pub mass: u64,
    pub density: u64,
    pub radius: u64,
    pub x: u64,
    pub y: u64,
    pub z: u64,
    pub vx: u64,
    pub vy: u64,
    pub vz: u64,
    pub ax: u64,
    pub ay: u64,
    pub az: u64,
}

impl Body {
    /// A body at rest at the origin with the given mass, density and derived
    /// radius, and a zeroed acceleration accumulator.
    pub fn new(mass: u64, density: u64, radius: u64) -> (b: Body)
        ensures
            b == (Body {
                mass,
                density,
                radius,
                x: 0,
                y: 0,
                z: 0,
                vx: 0,
                vy: 0,
                vz: 0,
                ax: 0,
                ay: 0,
                az: 0,
            }),
    {
        Body { mass, density, radius, x: 0, y: 0, z: 0, vx: 0, vy: 0, vz: 0, ax: 0, ay: 0, az: 0 }
    }

    /// Replaces the position, keeping every other field.
    pub fn set_position(self, x: u64, y: u64, z: u64) -> (b: Body)
        ensures
            b == (Body { x, y, z, ..self }),
    {
        Body { x, y, z, ..self }
    }

    /// Replaces the velocity, keeping every other field.
    pub fn set_velocity(self, vx: u64, vy: u64, vz: u64) -> (b: Body)
        ensures
            b == (Body { vx, vy, vz, ..self }),
    {
        Body { vx, vy, vz, ..self }
    }

    /// Replaces the acceleration accumulator, keeping every other field.
    pub fn set_accuracy(self, ax: u64, ay: u64, az: u64) -> (b: Body)
        ensures
            b == (Body { ax, ay, az, ..self }),
    {
        Body { ax, ay, az, ..self }
    }

    /// The central star of the seed scenario (bit patterns of
    /// mass 1.98847e30 kg, density 1410 kg/m^3, at the origin, at rest).
    pub fn sun() -> (b: Body)
        ensures
            b == spec_sun(),
    {
        Body::new(0x46391917d5281cd0, 0x4096080000000000, 0x41c4bb8c0737cce9)
    }

    /// Seed Mercury: 0.4667 au from the star, orbital speed 47360 m/s.
    pub fn mercury() -> (b: Body)
        ensures
            b == spec_mercury(),
    {
        Body::new(0x44d1640152df1a0b, 0x40b5360000000000, 0x4142946836ba4874).set_position(
            0x4230416fdaafb0a4,
            0,
            0,
        ).set_velocity(0, 0x40e7200000000000, 0)
    }

    /// Seed Venus: 0.728 au from the star, orbital speed 35020 m/s.
    pub fn venus() -> (b: Body)
        ensures
            b == spec_venus(),
    {
        Body::new(0x451021491e409c1a, 0x40b47b0000000000, 0x415718ebd67e92ba).set_position(
            0x42395b60c0cd9999,
            0,
            0,
        ).set_velocity(0, 0x40e1198000000000, 0)
    }

    /// Seed Earth: 1.017 au from the star, orbital speed 29780 m/s.
    pub fn earth() -> (b: Body)
        ensures
            b == spec_earth(),
    {
        Body::new(0x4513c2a671622121, 0x40b58b0000000000, 0x41584d1822167a4e).set_position(
            0x4241b627fa02f333,
            0,
            0,
        ).set_velocity(0, 0x40dd150000000000, 0)
    }

    /// Seed Moon: beside Earth, with an added 1022 m/s of orbital speed.
    pub fn moon() -> (b: Body)
        ensures
            b == spec_moon(),
    {
        Body::new(0x44af1e5cf5e24a58, 0x40aa200000000000, 0x413a833759539d72).set_position(
            0x4241b627fa02f333,
            0x41b83dbef33e1028,
            0,
        ).set_velocity(0x408ff00000000000, 0x40dd150000000000, 0)
    }

    /// Seed Mars: 1.666 au from the star, orbital speed 24070 m/s.
    pub fn mars() -> (b: Body)
        ensures
            b == spec_mars(),
    {
        Body::new(0x44e0fc540df5f605, 0x40aeba0000000000, 0x4149dcb06eaea49f).set_position(
            0x424d03a266751999,
            0,
            0,
        ).set_velocity(0, 0x40d7818000000000, 0)
    }

    /// Seed Jupiter: 5.459 au from the star, orbital speed 13060 m/s.
    pub fn jupiter() -> (b: Body)
        ensures
            b == spec_jupiter(),
    {
        Body::new(0x45988b43911c289b, 0x4094b80000000000, 0x4190abde45d2ac1d).set_position(
            0x4267c48d5eeae999,
            0,
            0,
        ).set_velocity(0, 0x40c9820000000000, 0)
    }

    /// Seed Saturn: 10.124 au from the star, orbital speed 9680 m/s.
    pub fn saturn() -> (b: Body)
        ensures
            b == spec_saturn(),
    {
        Body::new(0x457d61634bb2e532, 0x4085780000000000, 0x418bc4a7e9a7e646).set_position(
            0x42760a0f424d6ccd,
            0,
            0,
        ).set_velocity(0, 0x40c2e80000000000, 0)
    }

    /// Seed Uranus: 20.078 au from the star, orbital speed 6810 m/s.
    pub fn uranus() -> (b: Body)
        ensures
            b == spec_uranus(),
    {
        Body::new(0x4551f3aee1e62afa, 0x4093dc0000000000, 0x41782edf91f9d8b0).set_position(
            0x4285dab0824d54cd,
            0,
            0,
        ).set_velocity(0, 0x40ba9a0000000000, 0)
    }

    /// Seed Neptune: 30.385 au from the star, orbital speed 5430 m/s.
    pub fn neptun() -> (b: Body)
        ensures
            b == spec_neptun(),
    {
        Body::new(0x45f4adf4b7320335, 0x4099980000000000, 0x41ad599eaad26244).set_position(
            0x4290895b1d358e00,
            0,
            0,
        ).set_velocity(0, 0x40b5360000000000, 0)
    }
}

pub open spec fn spec_sun() -> Body {
    Body {
        mass: 0x46391917d5281cd0,
        density: 0x4096080000000000,
        radius: 0x41c4bb8c0737cce9,
        x: 0,
        y: 0,
        z: 0,
        vx: 0,
        vy: 0,
        vz: 0,
        ax: 0,
        ay: 0,
        az: 0,
    }
}

pub open spec fn spec_mercury() -> Body {
    Body {
        mass: 0x44d1640152df1a0b,
        density: 0x40b5360000000000,
        radius: 0x4142946836ba4874,
        x: 0x4230416fdaafb0a4,
        y: 0,
        z: 0,
        vx: 0,
        vy: 0x40e7200000000000,
        vz: 0,
        ax: 0,
        ay: 0,
        az: 0,
    }
}

pub open spec fn spec_venus() -> Body {
    Body {
        mass: 0x451021491e409c1a,
        density: 0x40b47b0000000000,
        radius: 0x415718ebd67e92ba,
        x: 0x42395b60c0cd9999,
        y: 0,
        z: 0,
        vx: 0,
        vy: 0x40e1198000000000,
        vz: 0,
        ax: 0,
        ay: 0,
        az: 0,
    }
}

pub open spec fn spec_earth() -> Body {
    Body {
        mass: 0x4513c2a671622121,
        density: 0x40b58b0000000000,
        radius: 0x41584d1822167a4e,
        x: 0x4241b627fa02f333,
        y: 0,
        z: 0,
        vx: 0,
        vy: 0x40dd150000000000,
        vz: 0,
        ax: 0,
        ay: 0,
        az: 0,
    }
}

pub open spec fn spec_moon() -> Body {
    Body {
        mass: 0x44af1e5cf5e24a58,
        density: 0x40aa200000000000,
        radius: 0x413a833759539d72,
        x: 0x4241b627fa02f333,
        y: 0x41b83dbef33e1028,
        z: 0,
        vx: 0x408ff00000000000,
        vy: 0x40dd150000000000,
        vz: 0,
        ax: 0,
        ay: 0,
        az: 0,
    }
}

pub open spec fn spec_mars() -> Body {
    Body {
        mass: 0x44e0fc540df5f605,
        density: 0x40aeba0000000000,
        radius: 0x4149dcb06eaea49f,
        x: 0x424d03a266751999,
        y: 0,
        z: 0,
        vx: 0,
        vy: 0x40d7818000000000,
        vz: 0,
        ax: 0,
        ay: 0,
        az: 0,
    }
}

pub open spec fn spec_jupiter() -> Body {
    Body {
        mass: 0x45988b43911c289b,
        density: 0x4094b80000000000,
        radius: 0x4190abde45d2ac1d,
        x: 0x4267c48d5eeae999,
        y: 0,
        z: 0,
        vx: 0,
        vy: 0x40c9820000000000,
        vz: 0,
        ax: 0,
        ay: 0,
        az: 0,
    }
}

pub open spec fn spec_saturn() -> Body {
    Body {
        mass: 0x457d61634bb2e532,
        density: 0x4085780000000000,
        radius: 0x418bc4a7e9a7e646,
        x: 0x42760a0f424d6ccd,
        y: 0,
        z: 0,
        vx: 0,
        vy: 0x40c2e80000000000,
        vz: 0,
        ax: 0,
        ay: 0,
        az: 0,
    }
}

pub open spec fn spec_uranus() -> Body {
    Body {
        mass: 0x4551f3aee1e62afa,
        density: 0x4093dc0000000000,
        radius: 0x41782edf91f9d8b0,
        x: 0x4285dab0824d54cd,
        y: 0,
        z: 0,
        vx: 0,
        vy: 0x40ba9a0000000000,
        vz: 0,
        ax: 0,
        ay: 0,
        az: 0,
    }
}

pub open spec fn spec_neptun() -> Body {
    Body {
        mass: 0x45f4adf4b7320335,
        density: 0x4099980000000000,
        radius: 0x41ad599eaad26244,
        x: 0x4290895b1d358e00,
        y: 0,
        z: 0,
        vx: 0,
        vy: 0x40b5360000000000,
        vz: 0,
        ax: 0,
        ay: 0,
        az: 0,
    }
}

} // verus!
