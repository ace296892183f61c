use vstd::prelude::*;

verus! {

/// Loader of ground files (`.gnd`).
#[derive(Debug, Clone, Copy, PartialEq, Eq, Structural)]
pub struct AssetLoader;

impl AssetLoader {
    /// File extensions this loader handles.
    pub fn extensions(&self) -> (r: &'static [&'static str])
        ensures
            r@.len() == 1,
            r@[0]@ == "gnd"@,
    {
        let r: &'static [&'static str] = &["gnd"];
        r
    }
}

/// The surfaces of one cube of a ground mesh, by index into the ground's
/// surface list; a negative index means the cube has no such face.
#[derive(Debug, Clone, Copy, PartialEq, Eq, Structural)]
pub struct CubeSurfaces {
    /// Surface of the top face.
    pub up: i32,
    /// Surface of the wall towards the next cube of the row.
    pub east: i32,
    /// Surface of the wall towards the cube of the next row.
    pub north: i32,
}

/// Which face of a cube a [`FacePlan`] draws.
#[derive(Debug, Clone, Copy, PartialEq, Eq, Structural)]
pub enum FaceKind {
    Up,
    East,
    North,
}

/// One face of the ground mesh: which cube and neighbour give its corner
/// heights, which surface textures it, and where it lies on the grid, in
/// cubes, centred on the middle of the map (multiply by the ground's scale
/// for world units).
#[derive(Debug, Clone, Copy, PartialEq, Eq, Structural)]
pub struct FacePlan {
    pub kind: FaceKind,
    /// The cube the face belongs to.
    pub cube: usize,
    /// The cube whose heights close the face: the cube itself for a top
    /// face, the next cube of the row for an east wall, the cube of the
    /// next row for a north wall.
    pub neighbour: usize,
    /// Index of the face's surface.
    pub surface: usize,
    /// Grid x of the face's reference corner.
    pub grid_x: i32,
    /// Grid z of the face's reference corner.
    pub grid_z: i32,
}

/// The top face of cube `i`: its bottom left corner.
pub open spec fn up_face(c: CubeSurfaces, i: int, width: int, height: int) -> FacePlan {
    FacePlan {
        kind: FaceKind::Up,
        cube: i as usize,
        neighbour: i as usize,
        surface: c.up as usize,
        grid_x: ((i % width) - width / 2) as i32,
        grid_z: ((i / width) - height / 2) as i32,
    }
}

/// The east wall of cube `i`: the bottom right corner, whose column is that
/// of the next cube in the cube list.
pub open spec fn east_face(c: CubeSurfaces, i: int, width: int, height: int) -> FacePlan {
    FacePlan {
        kind: FaceKind::East,
        cube: i as usize,
        neighbour: (i + 1) as usize,
        surface: c.east as usize,
        grid_x: (((i + 1) % width) - width / 2) as i32,
        grid_z: ((i / width) - height / 2) as i32,
    }
}

/// The north wall of cube `i`: the top left corner, one row further.
pub open spec fn north_face(c: CubeSurfaces, i: int, width: int, height: int) -> FacePlan {
    FacePlan {
        kind: FaceKind::North,
        cube: i as usize,
        neighbour: (i + width) as usize,
        surface: c.north as usize,
        grid_x: ((i % width) - width / 2) as i32,
        grid_z: (((i + width) / width) - height / 2) as i32,
    }
}

/// The faces of cube `i`: top, then east wall, then north wall, each where
/// its surface index is not negative.
pub open spec fn cube_faces(c: CubeSurfaces, i: int, width: int, height: int) -> Seq<FacePlan> {
    (if c.up >= 0 {
        seq![up_face(c, i, width, height)]
    } else {
        Seq::empty()
    }) + (if c.east >= 0 {
        seq![east_face(c, i, width, height)]
    } else {
        Seq::empty()
    }) + (if c.north >= 0 {
        seq![north_face(c, i, width, height)]
    } else {
        Seq::empty()
    })
}

/// The faces of all the cubes, cube by cube.
pub open spec fn planned_faces(cubes: Seq<CubeSurfaces>, width: int, height: int) -> Seq<FacePlan>
    decreases cubes.len(),
{
    if cubes.len() == 0 {
        Seq::empty()
    } else {
        planned_faces(cubes.drop_last(), width, height) + cube_faces(
            cubes.last(),
            cubes.len() - 1,
            width,
            height,
        )
    }
}

/// Whether cube `i` has any face.
pub open spec fn has_face(c: CubeSurfaces) -> bool {
    c.up >= 0 || c.east >= 0 || c.north >= 0
}

/// The ground can be built: every surface index names a surface, every
/// wall has its neighbour cube, the grid is not empty where a face exists,
/// and positions fit in an `i32`.
pub open spec fn faces_fit(
    cubes: Seq<CubeSurfaces>,
    width: int,
    height: int,
    surface_count: int,
) -> bool {
    &&& cubes.len() <= i32::MAX
    &&& width <= i32::MAX
    &&& height <= i32::MAX
    &&& forall|i: int|
        0 <= i < cubes.len() ==> {
            &&& has_face(#[trigger] cubes[i]) ==> width > 0
            &&& cubes[i].up >= 0 ==> cubes[i].up < surface_count
            &&& cubes[i].east >= 0 ==> cubes[i].east < surface_count && i + 1 < cubes.len()
            &&& cubes[i].north >= 0 ==> cubes[i].north < surface_count && i + width
                < cubes.len()
        }
}

/// A face reads only existing cubes and surfaces.
pub open spec fn face_in_bounds(face: FacePlan, cube_count: int, surface_count: int) -> bool {
    &&& face.cube < cube_count
    &&& face.neighbour < cube_count
    &&& face.surface < surface_count
}

proof fn lemma_prefix_faces_in_bounds(
    cubes: Seq<CubeSurfaces>,
    width: int,
    height: int,
    surface_count: int,
    n: int,
)
    requires
        faces_fit(cubes, width, height, surface_count),
        0 <= n <= cubes.len(),
    ensures
        forall|k: int|
            0 <= k < planned_faces(cubes.take(n), width, height).len() ==> face_in_bounds(
                #[trigger] planned_faces(cubes.take(n), width, height)[k],
                cubes.len() as int,
                surface_count,
            ),
    decreases n,
{
    if n > 0 {
        lemma_prefix_faces_in_bounds(cubes, width, height, surface_count, n - 1);
        let i = n - 1;
        let c = cubes[i];
        assert(cubes.take(n).drop_last() =~= cubes.take(i));
        assert(cubes.take(n).last() == c);
        let prev = planned_faces(cubes.take(i), width, height);
        let added = cube_faces(c, i, width, height);
        assert(planned_faces(cubes.take(n), width, height) == prev + added);
        assert(has_face(cubes[i]) ==> width > 0);
        assert forall|j: int| 0 <= j < added.len() implies face_in_bounds(
            #[trigger] added[j],
            cubes.len() as int,
            surface_count,
        ) by {
            let ups: Seq<FacePlan> = if c.up >= 0 {
                seq![up_face(c, i, width, height)]
            } else {
                Seq::empty()
            };
            let easts: Seq<FacePlan> = if c.east >= 0 {
                seq![east_face(c, i, width, height)]
            } else {
                Seq::empty()
            };
            let norths: Seq<FacePlan> = if c.north >= 0 {
                seq![north_face(c, i, width, height)]
            } else {
                Seq::empty()
            };
            assert(added == ups + easts + norths);
            if j < ups.len() {
                assert(added[j] == ups[j]);
            } else if j < ups.len() + easts.len() {
                assert(added[j] == easts[j - ups.len()]);
            } else {
                assert(added[j] == norths[j - ups.len() - easts.len()]);
            }
        }
        assert forall|k: int|
            0 <= k < planned_faces(cubes.take(n), width, height).len() implies face_in_bounds(
            #[trigger] planned_faces(cubes.take(n), width, height)[k],
            cubes.len() as int,
            surface_count,
        ) by {
            if k < prev.len() {
                assert(planned_faces(cubes.take(n), width, height)[k] == prev[k]);
            } else {
                assert(planned_faces(cubes.take(n), width, height)[k] == added[k - prev.len()]);
            }
        }
    }
}

/// Every face of a buildable ground reads only existing cubes and
/// surfaces: its own cube, the neighbour that closes it, and its surface.
pub proof fn lemma_faces_in_bounds(
    cubes: Seq<CubeSurfaces>,
    width: int,
    height: int,
    surface_count: int,
)
    requires
        faces_fit(cubes, width, height, surface_count),
    ensures
        forall|k: int|
            0 <= k < planned_faces(cubes, width, height).len() ==> face_in_bounds(
                #[trigger] planned_faces(cubes, width, height)[k],
                cubes.len() as int,
                surface_count,
            ),
{
    lemma_prefix_faces_in_bounds(cubes, width, height, surface_count, cubes.len() as int);
    assert(cubes.take(cubes.len() as int) =~= cubes);
}

/// Where a planned face lies and what it reads, by closed formulas over its
/// cube `i`, the row width and the ground's height (in cubes): a top face
/// sits at column `i % width` and row `i / width`, an east wall one column
/// further and closed by the next cube, a north wall one row further and
/// closed by the cube of the next row; columns are centred by `width / 2`
/// and rows by `height / 2`. Each face uses the surface its cube names for
/// that side, which is not negative.
pub open spec fn placed_face(f: FacePlan, cubes: Seq<CubeSurfaces>, width: int, height: int) -> bool {
    let i = f.cube as int;
    &&& 0 <= i < cubes.len()
    &&& match f.kind {
        FaceKind::Up => {
            &&& cubes[i].up >= 0
            &&& f.surface == cubes[i].up
            &&& f.neighbour == i
            &&& f.grid_x == i % width - width / 2
            &&& f.grid_z == i / width - height / 2
        },
        FaceKind::East => {
            &&& cubes[i].east >= 0
            &&& f.surface == cubes[i].east
            &&& f.neighbour == i + 1
            &&& f.grid_x == (i + 1) % width - width / 2
            &&& f.grid_z == i / width - height / 2
        },
        FaceKind::North => {
            &&& cubes[i].north >= 0
            &&& f.surface == cubes[i].north
            &&& f.neighbour == i + width
            &&& f.grid_x == i % width - width / 2
            &&& f.grid_z == (i + width) / width - height / 2
        },
    }
}

/// Some face of `faces` has this kind and cube.
pub open spec fn has_planned(faces: Seq<FacePlan>, kind: FaceKind, cube: int) -> bool {
    exists|k: int| 0 <= k < faces.len() && (#[trigger] faces[k]).kind == kind && faces[k].cube == cube
}

proof fn lemma_cube_faces_placed(
    cubes: Seq<CubeSurfaces>,
    i: int,
    width: int,
    height: int,
    surface_count: int,
)
    requires
        faces_fit(cubes, width, height, surface_count),
        0 <= width,
        0 <= height,
        0 <= i < cubes.len(),
    ensures
        forall|j: int|
            0 <= j < cube_faces(cubes[i], i, width, height).len() ==> placed_face(
                #[trigger] cube_faces(cubes[i], i, width, height)[j],
                cubes,
                width,
                height,
            ) && cube_faces(cubes[i], i, width, height)[j].cube == i,
        cubes[i].up >= 0 ==> has_planned(cube_faces(cubes[i], i, width, height), FaceKind::Up, i),
        cubes[i].east >= 0 ==> has_planned(
            cube_faces(cubes[i], i, width, height),
            FaceKind::East,
            i,
        ),
        cubes[i].north >= 0 ==> has_planned(
            cube_faces(cubes[i], i, width, height),
            FaceKind::North,
            i,
        ),
{
    let c = cubes[i];
    let added = cube_faces(c, i, width, height);
    assert(has_face(cubes[i]) ==> width > 0);
    if has_face(c) {
        assert(0 <= i / width <= i) by (nonlinear_arith)
            requires
                0 <= i,
                width > 0,
        ;
        assert(0 <= i % width < width) by (nonlinear_arith)
            requires
                width > 0,
        ;
        assert(0 <= (i + 1) % width < width) by (nonlinear_arith)
            requires
                width > 0,
        ;
        assert(0 <= (i + width) / width <= i + width) by (nonlinear_arith)
            requires
                0 <= i,
                width > 0,
        ;
    }
    let ups: Seq<FacePlan> = if c.up >= 0 {
        seq![up_face(c, i, width, height)]
    } else {
        Seq::empty()
    };
    let easts: Seq<FacePlan> = if c.east >= 0 {
        seq![east_face(c, i, width, height)]
    } else {
        Seq::empty()
    };
    let norths: Seq<FacePlan> = if c.north >= 0 {
        seq![north_face(c, i, width, height)]
    } else {
        Seq::empty()
    };
    assert(added == ups + easts + norths);
    assert forall|j: int| 0 <= j < added.len() implies placed_face(
        #[trigger] added[j],
        cubes,
        width,
        height,
    ) && added[j].cube == i by {
        if j < ups.len() {
            assert(added[j] == ups[j]);
        } else if j < ups.len() + easts.len() {
            assert(added[j] == easts[j - ups.len()]);
        } else {
            assert(added[j] == norths[j - ups.len() - easts.len()]);
        }
    }
    if c.up >= 0 {
        assert(added[0] == ups[0]);
        assert(added[0].kind == FaceKind::Up);
    }
    if c.east >= 0 {
        let j = ups.len() as int;
        assert(added[j] == easts[0]);
        assert(added[j].kind == FaceKind::East);
    }
    if c.north >= 0 {
        let j = (ups.len() + easts.len()) as int;
        assert(added[j] == norths[0]);
        assert(added[j].kind == FaceKind::North);
    }
}

proof fn lemma_prefix_faces_placed(
    cubes: Seq<CubeSurfaces>,
    width: int,
    height: int,
    surface_count: int,
    n: int,
)
    requires
        faces_fit(cubes, width, height, surface_count),
        0 <= width,
        0 <= height,
        0 <= n <= cubes.len(),
    ensures
        forall|k: int|
            0 <= k < planned_faces(cubes.take(n), width, height).len() ==> placed_face(
                #[trigger] planned_faces(cubes.take(n), width, height)[k],
                cubes,
                width,
                height,
            ) && planned_faces(cubes.take(n), width, height)[k].cube < n,
        forall|i: int|
            0 <= i < n && #[trigger] cubes[i].up >= 0 ==> has_planned(
                planned_faces(cubes.take(n), width, height),
                FaceKind::Up,
                i,
            ),
        forall|i: int|
            0 <= i < n && #[trigger] cubes[i].east >= 0 ==> has_planned(
                planned_faces(cubes.take(n), width, height),
                FaceKind::East,
                i,
            ),
        forall|i: int|
            0 <= i < n && #[trigger] cubes[i].north >= 0 ==> has_planned(
                planned_faces(cubes.take(n), width, height),
                FaceKind::North,
                i,
            ),
    decreases n,
{
    if n > 0 {
        lemma_prefix_faces_placed(cubes, width, height, surface_count, n - 1);
        let i = n - 1;
        let c = cubes[i];
        assert(cubes.take(n).drop_last() =~= cubes.take(i));
        assert(cubes.take(n).last() == c);
        let prev = planned_faces(cubes.take(i), width, height);
        let added = cube_faces(c, i, width, height);
        let all = planned_faces(cubes.take(n), width, height);
        assert(all == prev + added);
        lemma_cube_faces_placed(cubes, i, width, height, surface_count);
        assert forall|k: int| 0 <= k < all.len() implies placed_face(
            #[trigger] all[k],
            cubes,
            width,
            height,
        ) && all[k].cube < n by {
            if k < prev.len() {
                assert(all[k] == prev[k]);
            } else {
                assert(all[k] == added[k - prev.len()]);
            }
        }
        assert forall|j: int, kind: FaceKind| #[trigger] has_planned(prev, kind, j) implies has_planned(
            all,
            kind,
            j,
        ) by {
            let k = choose|k: int|
                0 <= k < prev.len() && (#[trigger] prev[k]).kind == kind && prev[k].cube == j;
            assert(all[k] == prev[k]);
        }
        assert forall|j: int, kind: FaceKind| #[trigger] has_planned(added, kind, j) implies has_planned(
            all,
            kind,
            j,
        ) by {
            let k = choose|k: int|
                0 <= k < added.len() && (#[trigger] added[k]).kind == kind && added[k].cube == j;
            assert(all[prev.len() + k] == added[k]);
        }
        assert forall|j: int| 0 <= j < n && #[trigger] cubes[j].up >= 0 implies has_planned(
            all,
            FaceKind::Up,
            j,
        ) by {
            if j < i {
                assert(has_planned(prev, FaceKind::Up, j));
            }
        }
        assert forall|j: int| 0 <= j < n && #[trigger] cubes[j].east >= 0 implies has_planned(
            all,
            FaceKind::East,
            j,
        ) by {
            if j < i {
                assert(has_planned(prev, FaceKind::East, j));
            }
        }
        assert forall|j: int| 0 <= j < n && #[trigger] cubes[j].north >= 0 implies has_planned(
            all,
            FaceKind::North,
            j,
        ) by {
            if j < i {
                assert(has_planned(prev, FaceKind::North, j));
            }
        }
    }
}

/// Every planned face lies where its cube puts it and reads the surface its
/// cube names (see [`placed_face`]), and every side a cube asks for (a
/// surface index that is not negative) is planned.
pub proof fn lemma_faces_placed(
    cubes: Seq<CubeSurfaces>,
    width: int,
    height: int,
    surface_count: int,
)
    requires
        faces_fit(cubes, width, height, surface_count),
        0 <= width,
        0 <= height,
    ensures
        forall|k: int|
            0 <= k < planned_faces(cubes, width, height).len() ==> placed_face(
                #[trigger] planned_faces(cubes, width, height)[k],
                cubes,
                width,
                height,
            ),
        forall|i: int|
            0 <= i < cubes.len() && #[trigger] cubes[i].up >= 0 ==> has_planned(
                planned_faces(cubes, width, height),
                FaceKind::Up,
                i,
            ),
        forall|i: int|
            0 <= i < cubes.len() && #[trigger] cubes[i].east >= 0 ==> has_planned(
                planned_faces(cubes, width, height),
                FaceKind::East,
                i,
            ),
        forall|i: int|
            0 <= i < cubes.len() && #[trigger] cubes[i].north >= 0 ==> has_planned(
                planned_faces(cubes, width, height),
                FaceKind::North,
                i,
            ),
{
    lemma_prefix_faces_placed(cubes, width, height, surface_count, cubes.len() as int);
    assert(cubes.take(cubes.len() as int) =~= cubes);
}

/// Plans every face of a ground mesh whose rows hold `width` cubes.
pub fn plan_faces(cubes: &Vec<CubeSurfaces>, width: u32, height: u32, surface_count: usize) -> (faces:
    Vec<FacePlan>)
    requires
        faces_fit(cubes@, width as int, height as int, surface_count as int),
    ensures
        faces@ == planned_faces(cubes@, width as int, height as int),
        forall|k: int|
            0 <= k < faces@.len() ==> placed_face(
                #[trigger] faces@[k],
                cubes@,
                width as int,
                height as int,
            ),
        forall|i: int|
            0 <= i < cubes@.len() && #[trigger] cubes@[i].up >= 0 ==> has_planned(
                faces@,
                FaceKind::Up,
                i,
            ),
        forall|i: int|
            0 <= i < cubes@.len() && #[trigger] cubes@[i].east >= 0 ==> has_planned(
                faces@,
                FaceKind::East,
                i,
            ),
        forall|i: int|
            0 <= i < cubes@.len() && #[trigger] cubes@[i].north >= 0 ==> has_planned(
                faces@,
                FaceKind::North,
                i,
            ),
{
    let mut faces: Vec<FacePlan> = Vec::new();
    let mut i: usize = 0;
    while i < cubes.len()
        invariant
            faces_fit(cubes@, width as int, height as int, surface_count as int),
            i <= cubes.len(),
            faces@ == planned_faces(cubes@.take(i as int), width as int, height as int),
        decreases cubes.len() - i,
    {
        let cube = cubes[i];
        let ghost before = faces@;
        proof {
            assert(cubes@.take(i + 1).drop_last() =~= cubes@.take(i as int));
            assert(cubes@.take(i + 1).last() == cube);
            assert(has_face(cubes@[i as int]) ==> width > 0);
        }
        let index = i as i32;
        let w = width as i32;
        let h = height as i32;
        let ghost added: Seq<FacePlan> = Seq::empty();
        if cube.up >= 0 {
            faces.push(
                FacePlan {
                    kind: FaceKind::Up,
                    cube: i,
                    neighbour: i,
                    surface: cube.up as usize,
                    grid_x: (index % w) - (w / 2),
                    grid_z: (index / w) - (h / 2),
                },
            );
            proof {
                added = added.push(up_face(cube, i as int, width as int, height as int));
            }
        }
        if cube.east >= 0 {
            faces.push(
                FacePlan {
                    kind: FaceKind::East,
                    cube: i,
                    neighbour: i + 1,
                    surface: cube.east as usize,
                    grid_x: ((index + 1) % w) - (w / 2),
                    grid_z: (index / w) - (h / 2),
                },
            );
            proof {
                added = added.push(east_face(cube, i as int, width as int, height as int));
            }
        }
        if cube.north >= 0 {
            faces.push(
                FacePlan {
                    kind: FaceKind::North,
                    cube: i,
                    neighbour: i + width as usize,
                    surface: cube.north as usize,
                    grid_x: (index % w) - (w / 2),
                    grid_z: ((index + w) / w) - (h / 2),
                },
            );
            proof {
                added = added.push(north_face(cube, i as int, width as int, height as int));
            }
        }
        proof {
            assert(added =~= cube_faces(cube, i as int, width as int, height as int));
            assert(faces@ =~= before + added);
        }
        i = i + 1;
    }
    proof {
        assert(cubes@.take(cubes.len() as int) =~= cubes@);
        lemma_faces_placed(cubes@, width as int, height as int, surface_count as int);
    }
    faces
}

} // verus!
