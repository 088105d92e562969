# bevy_procedural_grass

Procedural grass for Bevy. The library (`src/`) holds the verified logic:

- `chunk`: splitting a mesh's index list into triangles, grouping generated
  blades by the chunk they fall in (with a proof that the grouping is a
  partition that keeps each chunk's blades in order), levels of detail and
  culling dimensions.
- `queue`: the mesh pipeline key of a grass entity in a view, built through
  `bevy_pbr`'s `MeshPipelineKey`, with a proof that each part can be read back.
- `command`: what the grass render commands bind and draw, and when they fail.

`app/` is the Bevy plugin around it: components, assets, render systems, the
grass pipeline and the `RenderCommand` impls, which hand the library plain
values and carry out what it decides. Blade placement, colours and blade
shapes are floating point and stay there.
